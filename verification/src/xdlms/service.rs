//! The services, as they are asked for and answered.

use vstd::prelude::*;

use super::ids::{InvokeId, LongInvokeId, OptionalDateTime};
use super::list::{
    read_flag, read_i8, read_list, read_opt, read_u16, read_u32, write_flag, write_list, write_opt,
    Wire,
};
use super::result::{ActionResult, DataAccessResult};
use crate::axdr::data::Data;
use crate::codec::{Decode, Encode, Error, ErrorKind, Reader, Result, Writer};
use crate::obis::Obis;
#[allow(unused_imports)]
use super::list::{
    enc_flag, enc_list, enc_opt, fits_list, fits_opt, opt_view, p_flag, p_i8, p_list, p_opt, p_u16,
    p_u32, views,
};
#[allow(unused_imports)]
use crate::axdr::data::{p_data, DataV};
#[allow(unused_imports)]
use crate::bytes::be_bytes;
#[allow(unused_imports)]
use crate::codec::{
    appended, enc_prefixed, err_before, lemma_then, length_fits, p_length_prefixed, p_take, p_u8, Cursor,
};

verus! {

/// The most operations one request may hold where each has an outcome of its own.
pub const MAX_ACCESS_ITEMS: usize = 64;

impl<'a> Wire<'a> for Data<'a> {
    open spec fn enc_of(v: DataV) -> Seq<u8> {
        v.enc()
    }

    open spec fn fits_of(v: DataV) -> bool {
        v.encodable()
    }

    proof fn lemma_enc(&self) {
    }
}

/// Which attribute of which object.
#[verifier::ext_equal]
pub struct AttributeDescriptorV {
    /// The class.
    pub class_id: u16,
    /// The logical name.
    pub instance_id: Seq<u8>,
    /// The attribute.
    pub attribute_id: i8,
}

/// Which attribute of which object.
#[derive(Debug, Clone, Copy, PartialEq, Eq)]
pub struct AttributeDescriptor {
    /// The class.
    pub class_id: u16,
    /// The logical name.
    pub instance_id: Obis,
    /// The attribute.
    pub attribute_id: i8,
}

impl View for AttributeDescriptor {
    type V = AttributeDescriptorV;

    open spec fn view(&self) -> AttributeDescriptorV {
        AttributeDescriptorV {
            class_id: self.class_id,
            instance_id: self.instance_id@,
            attribute_id: self.attribute_id,
        }
    }
}

impl AttributeDescriptorV {
    /// The encoding.
    pub open spec fn enc(self) -> Seq<u8> {
        be_bytes(self.class_id as nat, 2) + self.instance_id + seq![self.attribute_id as u8]
    }

    /// Whether there is one.
    pub open spec fn fits(self) -> bool {
        true
    }

    /// What stands at a cursor.
    #[verifier::opaque]
    pub open spec fn p(c: Cursor) -> Result<(AttributeDescriptorV, Cursor)> {
        match p_u16(c) {
            Err(e) => Err(e),
            Ok((class_id, c1)) => match p_take(c1, 6) {
                Err(e) => Err(e),
                Ok((instance_id, c2)) => match p_i8(c2) {
                    Err(e) => Err(e),
                    Ok((attribute_id, c3)) => Ok(
                        (
                            AttributeDescriptorV { class_id, instance_id, attribute_id },
                            c3,
                        ),
                    ),
                },
            },
        }
    }
}

impl Encode for AttributeDescriptor {
    open spec fn enc(&self) -> Seq<u8> {
        self@.enc()
    }

    open spec fn encodable(&self) -> bool {
        self@.fits()
    }

    fn encode<W: Writer>(&self, w: &mut W) -> (r: Result<()>) {
        let ghost w0 = w.sink().bytes;
        assert(self.enc() == self@.enc() && self.encodable() == self@.fits());
        w.write_u16(self.class_id)?;
        self.instance_id.encode(w)?;
        w.write_u8(self.attribute_id as u8)?;
        assert(w.sink().bytes =~= w0 + self@.enc());
        Ok(())
    }
}

impl<'a> Decode<'a> for AttributeDescriptor {
    open spec fn parse(c: Cursor) -> Result<(AttributeDescriptorV, Cursor)> {
        AttributeDescriptorV::p(c)
    }

    fn decode(r: &mut Reader<'a>) -> (res: Result<Self>) {
        proof {
            reveal(AttributeDescriptorV::p);
            assert(Self::parse(r@) == AttributeDescriptorV::p(r@));
        }
        let class_id = read_u16(r)?;
        let instance_id = Obis::decode(r)?;
        let attribute_id = read_i8(r)?;
        Ok(AttributeDescriptor { class_id, instance_id, attribute_id })
    }
}

impl AttributeDescriptor {
    /// An attribute of an object.
    #[must_use]
    pub fn new(class_id: u16, instance_id: Obis, attribute_id: i8) -> (r: Self)
        ensures
            r == (AttributeDescriptor { class_id, instance_id, attribute_id }),
    {
        AttributeDescriptor { class_id, instance_id, attribute_id }
    }
}

/// Which method of which object.
#[verifier::ext_equal]
pub struct MethodDescriptorV {
    /// The class.
    pub class_id: u16,
    /// The logical name.
    pub instance_id: Seq<u8>,
    /// The method.
    pub method_id: i8,
}

/// Which method of which object.
#[derive(Debug, Clone, Copy, PartialEq, Eq)]
pub struct MethodDescriptor {
    /// The class.
    pub class_id: u16,
    /// The logical name.
    pub instance_id: Obis,
    /// The method.
    pub method_id: i8,
}

impl View for MethodDescriptor {
    type V = MethodDescriptorV;

    open spec fn view(&self) -> MethodDescriptorV {
        MethodDescriptorV {
            class_id: self.class_id,
            instance_id: self.instance_id@,
            method_id: self.method_id,
        }
    }
}

impl MethodDescriptorV {
    /// The encoding.
    pub open spec fn enc(self) -> Seq<u8> {
        be_bytes(self.class_id as nat, 2) + self.instance_id + seq![self.method_id as u8]
    }

    /// Whether there is one.
    pub open spec fn fits(self) -> bool {
        true
    }

    /// What stands at a cursor.
    #[verifier::opaque]
    pub open spec fn p(c: Cursor) -> Result<(MethodDescriptorV, Cursor)> {
        match p_u16(c) {
            Err(e) => Err(e),
            Ok((class_id, c1)) => match p_take(c1, 6) {
                Err(e) => Err(e),
                Ok((instance_id, c2)) => match p_i8(c2) {
                    Err(e) => Err(e),
                    Ok((method_id, c3)) => Ok(
                        (
                            MethodDescriptorV { class_id, instance_id, method_id },
                            c3,
                        ),
                    ),
                },
            },
        }
    }
}

impl Encode for MethodDescriptor {
    open spec fn enc(&self) -> Seq<u8> {
        self@.enc()
    }

    open spec fn encodable(&self) -> bool {
        self@.fits()
    }

    fn encode<W: Writer>(&self, w: &mut W) -> (r: Result<()>) {
        let ghost w0 = w.sink().bytes;
        assert(self.enc() == self@.enc() && self.encodable() == self@.fits());
        w.write_u16(self.class_id)?;
        self.instance_id.encode(w)?;
        w.write_u8(self.method_id as u8)?;
        assert(w.sink().bytes =~= w0 + self@.enc());
        Ok(())
    }
}

impl<'a> Decode<'a> for MethodDescriptor {
    open spec fn parse(c: Cursor) -> Result<(MethodDescriptorV, Cursor)> {
        MethodDescriptorV::p(c)
    }

    fn decode(r: &mut Reader<'a>) -> (res: Result<Self>) {
        proof {
            reveal(MethodDescriptorV::p);
            assert(Self::parse(r@) == MethodDescriptorV::p(r@));
        }
        let class_id = read_u16(r)?;
        let instance_id = Obis::decode(r)?;
        let method_id = read_i8(r)?;
        Ok(MethodDescriptor { class_id, instance_id, method_id })
    }
}

impl<'a> Wire<'a> for MethodDescriptor {
    open spec fn enc_of(v: MethodDescriptorV) -> Seq<u8> {
        v.enc()
    }

    open spec fn fits_of(v: MethodDescriptorV) -> bool {
        v.fits()
    }

    proof fn lemma_enc(&self) {
    }
}

impl MethodDescriptor {
    /// A method of an object.
    #[must_use]
    pub fn new(class_id: u16, instance_id: Obis, method_id: i8) -> (r: Self)
        ensures
            r == (MethodDescriptor { class_id, instance_id, method_id }),
    {
        MethodDescriptor { class_id, instance_id, method_id }
    }
}

/// Which part of an attribute.
#[verifier::ext_equal]
pub struct SelectiveAccessV {
    /// How the part is named.
    pub selector: u8,
    /// The name of the part.
    pub parameters: DataV,
}

/// Which part of an attribute.
#[derive(Debug, Clone, Copy, PartialEq)]
pub struct SelectiveAccess<'a> {
    /// How the part is named.
    pub selector: u8,
    /// The name of the part.
    pub parameters: Data<'a>,
}

impl<'a> View for SelectiveAccess<'a> {
    type V = SelectiveAccessV;

    open spec fn view(&self) -> SelectiveAccessV {
        SelectiveAccessV {
            selector: self.selector,
            parameters: self.parameters@,
        }
    }
}

impl SelectiveAccessV {
    /// The encoding.
    pub open spec fn enc(self) -> Seq<u8> {
        seq![self.selector] + self.parameters.enc()
    }

    /// Whether there is one.
    pub open spec fn fits(self) -> bool {
        self.parameters.encodable()
    }

    /// What stands at a cursor.
    #[verifier::opaque]
    pub open spec fn p(c: Cursor) -> Result<(SelectiveAccessV, Cursor)> {
        match p_u8(c) {
            Err(e) => Err(e),
            Ok((selector, c1)) => match p_data(c1, 0) {
                Err(e) => Err(e),
                Ok((parameters, c2)) => Ok((SelectiveAccessV { selector, parameters }, c2)),
            },
        }
    }
}

impl<'a> Encode for SelectiveAccess<'a> {
    open spec fn enc(&self) -> Seq<u8> {
        self@.enc()
    }

    open spec fn encodable(&self) -> bool {
        self@.fits()
    }

    fn encode<W: Writer>(&self, w: &mut W) -> (r: Result<()>) {
        let ghost w0 = w.sink().bytes;
        assert(self.enc() == self@.enc() && self.encodable() == self@.fits());
        w.write_u8(self.selector)?;
        self.parameters.encode(w)?;
        assert(w.sink().bytes =~= w0 + self@.enc());
        Ok(())
    }
}

impl<'a> Decode<'a> for SelectiveAccess<'a> {
    open spec fn parse(c: Cursor) -> Result<(SelectiveAccessV, Cursor)> {
        SelectiveAccessV::p(c)
    }

    fn decode(r: &mut Reader<'a>) -> (res: Result<Self>) {
        proof {
            reveal(SelectiveAccessV::p);
            assert(Self::parse(r@) == SelectiveAccessV::p(r@));
        }
        let selector = r.u8()?;
        let parameters = Data::decode(r)?;
        Ok(SelectiveAccess { selector, parameters })
    }
}

impl<'a> Wire<'a> for SelectiveAccess<'a> {
    open spec fn enc_of(v: SelectiveAccessV) -> Seq<u8> {
        v.enc()
    }

    open spec fn fits_of(v: SelectiveAccessV) -> bool {
        v.fits()
    }

    proof fn lemma_enc(&self) {
    }
}

/// An attribute, and possibly which part of it.
#[verifier::ext_equal]
pub struct AttributeDescriptorWithSelectionV {
    /// The attribute.
    pub descriptor: AttributeDescriptorV,
    /// The part.
    pub access: Option<SelectiveAccessV>,
}

/// An attribute, and possibly which part of it.
#[derive(Debug, Clone, Copy, PartialEq)]
pub struct AttributeDescriptorWithSelection<'a> {
    /// The attribute.
    pub descriptor: AttributeDescriptor,
    /// The part.
    pub access: Option<SelectiveAccess<'a>>,
}

impl<'a> View for AttributeDescriptorWithSelection<'a> {
    type V = AttributeDescriptorWithSelectionV;

    open spec fn view(&self) -> AttributeDescriptorWithSelectionV {
        AttributeDescriptorWithSelectionV {
            descriptor: self.descriptor@,
            access: opt_view(self.access),
        }
    }
}

impl AttributeDescriptorWithSelectionV {
    /// The encoding.
    pub open spec fn enc(self) -> Seq<u8> {
        self.descriptor.enc() + enc_opt::<SelectiveAccess<'static>>(self.access)
    }

    /// Whether there is one.
    pub open spec fn fits(self) -> bool {
        self.descriptor.fits() && fits_opt::<SelectiveAccess<'static>>(self.access)
    }

    /// What stands at a cursor.
    #[verifier::opaque]
    pub open spec fn p(c: Cursor) -> Result<(AttributeDescriptorWithSelectionV, Cursor)> {
        match AttributeDescriptorV::p(c) {
            Err(e) => Err(e),
            Ok((descriptor, c1)) => match p_opt::<SelectiveAccess<'static>>(c1) {
                Err(e) => Err(e),
                Ok((access, c2)) => Ok(
                    (
                        AttributeDescriptorWithSelectionV { descriptor, access },
                        c2,
                    ),
                ),
            },
        }
    }
}

impl<'a> Encode for AttributeDescriptorWithSelection<'a> {
    open spec fn enc(&self) -> Seq<u8> {
        self@.enc()
    }

    open spec fn encodable(&self) -> bool {
        self@.fits()
    }

    fn encode<W: Writer>(&self, w: &mut W) -> (r: Result<()>) {
        let ghost w0 = w.sink().bytes;
        assert(self.enc() == self@.enc() && self.encodable() == self@.fits());
        self.descriptor.encode(w)?;
        write_opt(w, &self.access)?;
        assert(w.sink().bytes =~= w0 + self@.enc());
        Ok(())
    }
}

impl<'a> Decode<'a> for AttributeDescriptorWithSelection<'a> {
    open spec fn parse(c: Cursor) -> Result<(AttributeDescriptorWithSelectionV, Cursor)> {
        AttributeDescriptorWithSelectionV::p(c)
    }

    fn decode(r: &mut Reader<'a>) -> (res: Result<Self>) {
        proof {
            reveal(AttributeDescriptorWithSelectionV::p);
            assert(Self::parse(r@) == AttributeDescriptorWithSelectionV::p(r@));
        }
        let descriptor = AttributeDescriptor::decode(r)?;
        let access = read_opt(r)?;
        Ok(AttributeDescriptorWithSelection { descriptor, access })
    }
}

impl<'a> Wire<'a> for AttributeDescriptorWithSelection<'a> {
    open spec fn enc_of(v: AttributeDescriptorWithSelectionV) -> Seq<u8> {
        v.enc()
    }

    open spec fn fits_of(v: AttributeDescriptorWithSelectionV) -> bool {
        v.fits()
    }

    proof fn lemma_enc(&self) {
    }
}

/// A value, or why there is none.
#[verifier::ext_equal]
pub enum GetDataResultV {
    /// The value.
    Data(DataV),
    /// Why there is none.
    Error(DataAccessResult),
}

/// A value, or why there is none.
#[derive(Debug, Clone, Copy, PartialEq)]
pub enum GetDataResult<'a> {
    /// The value.
    Data(Data<'a>),
    /// Why there is none.
    Error(DataAccessResult),
}

impl<'a> View for GetDataResult<'a> {
    type V = GetDataResultV;

    open spec fn view(&self) -> GetDataResultV {
        match *self {
            GetDataResult::Data(v) => GetDataResultV::Data(v@),
            GetDataResult::Error(v) => GetDataResultV::Error(v),
        }
    }
}

impl GetDataResultV {
    /// The encoding.
    #[verifier::opaque]
    pub open spec fn enc(self) -> Seq<u8> {
        match self {
            GetDataResultV::Data(v) => seq![0u8] + v.enc(),
            GetDataResultV::Error(v) => seq![1u8] + seq![v.as_u8()],
        }
    }

    /// Whether there is one.
    pub open spec fn fits(self) -> bool {
        match self {
            GetDataResultV::Data(v) => v.encodable(),
            GetDataResultV::Error(_) => true,
        }
    }

    /// What stands at a cursor.
    #[verifier::opaque]
    pub open spec fn p(c: Cursor) -> Result<(GetDataResultV, Cursor)> {
        match p_u8(c) {
            Err(e) => Err(e),
            Ok((tag, c0)) => if tag == 0 {
                match p_data(c0, 0) {
                    Err(e) => Err(e),
                    Ok((v, c1)) => Ok((GetDataResultV::Data(v), c1)),
                }
            } else if tag == 1 {
                match DataAccessResult::p(c0) {
                    Err(e) => Err(e),
                    Ok((v, c1)) => Ok((GetDataResultV::Error(v), c1)),
                }
            } else {
                Err(err_before(ErrorKind::InvalidTag(tag), c0.at(), 1))
            },
        }
    }
}

impl<'a> Encode for GetDataResult<'a> {
    open spec fn enc(&self) -> Seq<u8> {
        self@.enc()
    }

    open spec fn encodable(&self) -> bool {
        self@.fits()
    }

    fn encode<W: Writer>(&self, w: &mut W) -> (r: Result<()>) {
        proof {
            reveal(GetDataResultV::enc);
            assert(self.enc() == self@.enc() && self.encodable() == self@.fits());
        }
        let ghost w0 = w.sink().bytes;
        match self {
            GetDataResult::Data(v) => {
                w.write_u8(0)?;
                v.encode(w)?;
            },
            GetDataResult::Error(v) => {
                w.write_u8(1)?;
                w.write_u8((*v).as_u8())?;
            },
        }
        assert(w.sink().bytes =~= w0 + self@.enc());
        Ok(())
    }
}

impl<'a> Decode<'a> for GetDataResult<'a> {
    open spec fn parse(c: Cursor) -> Result<(GetDataResultV, Cursor)> {
        GetDataResultV::p(c)
    }

    fn decode(r: &mut Reader<'a>) -> (res: Result<Self>) {
        proof {
            reveal(GetDataResultV::p);
            assert(Self::parse(r@) == GetDataResultV::p(r@));
        }
        let tag = r.u8()?;
        match tag {
            0 => {
                let v = Data::decode(r)?;
                Ok(GetDataResult::Data(v))
            },
            1 => {
                let v = DataAccessResult::read(r)?;
                Ok(GetDataResult::Error(v))
            },
            _ => Err(r.err_back(ErrorKind::InvalidTag(tag), 1)),
        }
    }
}

impl<'a> Wire<'a> for GetDataResult<'a> {
    open spec fn enc_of(v: GetDataResultV) -> Seq<u8> {
        v.enc()
    }

    open spec fn fits_of(v: GetDataResultV) -> bool {
        v.fits()
    }

    proof fn lemma_enc(&self) {
    }
}

impl<'a> GetDataResult<'a> {
    /// The value, or why there is none.
    pub fn value(&self) -> (r: core::result::Result<Data<'a>, DataAccessResult>)
        ensures
            match r {
                Ok(d) => self@ == GetDataResultV::Data(d@),
                Err(e) => self@ == GetDataResultV::Error(e),
            },
    {
        match *self {
            GetDataResult::Data(d) => Ok(d),
            GetDataResult::Error(e) => Err(e),
        }
    }
}

/// A fragment, or why there is none.
#[verifier::ext_equal]
pub enum BlockResultV {
    /// The fragment.
    RawData(Seq<u8>),
    /// Why there is none.
    Error(DataAccessResult),
}

/// A fragment, or why there is none.
#[derive(Debug, Clone, Copy, PartialEq)]
pub enum BlockResult<'a> {
    /// The fragment.
    RawData(&'a [u8]),
    /// Why there is none.
    Error(DataAccessResult),
}

impl<'a> View for BlockResult<'a> {
    type V = BlockResultV;

    open spec fn view(&self) -> BlockResultV {
        match *self {
            BlockResult::RawData(v) => BlockResultV::RawData(v@),
            BlockResult::Error(v) => BlockResultV::Error(v),
        }
    }
}

impl BlockResultV {
    /// The encoding.
    #[verifier::opaque]
    pub open spec fn enc(self) -> Seq<u8> {
        match self {
            BlockResultV::RawData(v) => seq![0u8] + enc_prefixed(v),
            BlockResultV::Error(v) => seq![1u8] + seq![v.as_u8()],
        }
    }

    /// Whether there is one.
    pub open spec fn fits(self) -> bool {
        match self {
            BlockResultV::RawData(v) => length_fits(v.len()),
            BlockResultV::Error(_) => true,
        }
    }

    /// What stands at a cursor.
    #[verifier::opaque]
    pub open spec fn p(c: Cursor) -> Result<(BlockResultV, Cursor)> {
        match p_u8(c) {
            Err(e) => Err(e),
            Ok((tag, c0)) => if tag == 0 {
                match p_length_prefixed(c0) {
                    Err(e) => Err(e),
                    Ok((v, c1)) => Ok((BlockResultV::RawData(v), c1)),
                }
            } else if tag == 1 {
                match DataAccessResult::p(c0) {
                    Err(e) => Err(e),
                    Ok((v, c1)) => Ok((BlockResultV::Error(v), c1)),
                }
            } else {
                Err(err_before(ErrorKind::InvalidTag(tag), c0.at(), 1))
            },
        }
    }
}

impl<'a> Encode for BlockResult<'a> {
    open spec fn enc(&self) -> Seq<u8> {
        self@.enc()
    }

    open spec fn encodable(&self) -> bool {
        self@.fits()
    }

    fn encode<W: Writer>(&self, w: &mut W) -> (r: Result<()>) {
        proof {
            reveal(BlockResultV::enc);
            assert(self.enc() == self@.enc() && self.encodable() == self@.fits());
        }
        let ghost w0 = w.sink().bytes;
        match self {
            BlockResult::RawData(v) => {
                w.write_u8(0)?;
                w.write_length_prefixed(*v)?;
            },
            BlockResult::Error(v) => {
                w.write_u8(1)?;
                w.write_u8((*v).as_u8())?;
            },
        }
        assert(w.sink().bytes =~= w0 + self@.enc());
        Ok(())
    }
}

impl<'a> Decode<'a> for BlockResult<'a> {
    open spec fn parse(c: Cursor) -> Result<(BlockResultV, Cursor)> {
        BlockResultV::p(c)
    }

    fn decode(r: &mut Reader<'a>) -> (res: Result<Self>) {
        proof {
            reveal(BlockResultV::p);
            assert(Self::parse(r@) == BlockResultV::p(r@));
        }
        let tag = r.u8()?;
        match tag {
            0 => {
                let v = r.length_prefixed()?;
                Ok(BlockResult::RawData(v))
            },
            1 => {
                let v = DataAccessResult::read(r)?;
                Ok(BlockResult::Error(v))
            },
            _ => Err(r.err_back(ErrorKind::InvalidTag(tag), 1)),
        }
    }
}

/// One block of a long read.
#[verifier::ext_equal]
pub struct DataBlockGV {
    /// True when no further block follows.
    pub last_block: bool,
    /// The number of the block.
    pub block_number: u32,
    /// The fragment, or why there is none.
    pub result: BlockResultV,
}

/// One block of a long read.
#[derive(Debug, Clone, Copy, PartialEq)]
pub struct DataBlockG<'a> {
    /// True when no further block follows.
    pub last_block: bool,
    /// The number of the block.
    pub block_number: u32,
    /// The fragment, or why there is none.
    pub result: BlockResult<'a>,
}

impl<'a> View for DataBlockG<'a> {
    type V = DataBlockGV;

    open spec fn view(&self) -> DataBlockGV {
        DataBlockGV {
            last_block: self.last_block,
            block_number: self.block_number,
            result: self.result@,
        }
    }
}

impl DataBlockGV {
    /// The encoding.
    pub open spec fn enc(self) -> Seq<u8> {
        enc_flag(self.last_block) + be_bytes(self.block_number as nat, 4) + self.result.enc()
    }

    /// Whether there is one.
    pub open spec fn fits(self) -> bool {
        self.result.fits()
    }

    /// What stands at a cursor.
    #[verifier::opaque]
    pub open spec fn p(c: Cursor) -> Result<(DataBlockGV, Cursor)> {
        match p_flag(c) {
            Err(e) => Err(e),
            Ok((last_block, c1)) => match p_u32(c1) {
                Err(e) => Err(e),
                Ok((block_number, c2)) => match BlockResultV::p(c2) {
                    Err(e) => Err(e),
                    Ok((result, c3)) => Ok((DataBlockGV { last_block, block_number, result }, c3)),
                },
            },
        }
    }
}

impl<'a> Encode for DataBlockG<'a> {
    open spec fn enc(&self) -> Seq<u8> {
        self@.enc()
    }

    open spec fn encodable(&self) -> bool {
        self@.fits()
    }

    fn encode<W: Writer>(&self, w: &mut W) -> (r: Result<()>) {
        let ghost w0 = w.sink().bytes;
        assert(self.enc() == self@.enc() && self.encodable() == self@.fits());
        write_flag(w, self.last_block)?;
        w.write_u32(self.block_number)?;
        self.result.encode(w)?;
        assert(w.sink().bytes =~= w0 + self@.enc());
        Ok(())
    }
}

impl<'a> Decode<'a> for DataBlockG<'a> {
    open spec fn parse(c: Cursor) -> Result<(DataBlockGV, Cursor)> {
        DataBlockGV::p(c)
    }

    fn decode(r: &mut Reader<'a>) -> (res: Result<Self>) {
        proof {
            reveal(DataBlockGV::p);
            assert(Self::parse(r@) == DataBlockGV::p(r@));
        }
        let last_block = read_flag(r)?;
        let block_number = read_u32(r)?;
        let result = BlockResult::decode(r)?;
        Ok(DataBlockG { last_block, block_number, result })
    }
}

/// One block of a long write or invocation.
#[verifier::ext_equal]
pub struct DataBlockSAV {
    /// True when no further block follows.
    pub last_block: bool,
    /// The number of the block.
    pub block_number: u32,
    /// The fragment.
    pub raw_data: Seq<u8>,
}

/// One block of a long write or invocation.
#[derive(Debug, Clone, Copy, PartialEq)]
pub struct DataBlockSA<'a> {
    /// True when no further block follows.
    pub last_block: bool,
    /// The number of the block.
    pub block_number: u32,
    /// The fragment.
    pub raw_data: &'a [u8],
}

impl<'a> View for DataBlockSA<'a> {
    type V = DataBlockSAV;

    open spec fn view(&self) -> DataBlockSAV {
        DataBlockSAV {
            last_block: self.last_block,
            block_number: self.block_number,
            raw_data: self.raw_data@,
        }
    }
}

impl DataBlockSAV {
    /// The encoding.
    pub open spec fn enc(self) -> Seq<u8> {
        enc_flag(self.last_block)
            + be_bytes(self.block_number as nat, 4)
            + enc_prefixed(self.raw_data)
    }

    /// Whether there is one.
    pub open spec fn fits(self) -> bool {
        length_fits(self.raw_data.len())
    }

    /// What stands at a cursor.
    #[verifier::opaque]
    pub open spec fn p(c: Cursor) -> Result<(DataBlockSAV, Cursor)> {
        match p_flag(c) {
            Err(e) => Err(e),
            Ok((last_block, c1)) => match p_u32(c1) {
                Err(e) => Err(e),
                Ok((block_number, c2)) => match p_length_prefixed(c2) {
                    Err(e) => Err(e),
                    Ok((raw_data, c3)) => Ok(
                        (
                            DataBlockSAV { last_block, block_number, raw_data },
                            c3,
                        ),
                    ),
                },
            },
        }
    }
}

impl<'a> Encode for DataBlockSA<'a> {
    open spec fn enc(&self) -> Seq<u8> {
        self@.enc()
    }

    open spec fn encodable(&self) -> bool {
        self@.fits()
    }

    fn encode<W: Writer>(&self, w: &mut W) -> (r: Result<()>) {
        let ghost w0 = w.sink().bytes;
        assert(self.enc() == self@.enc() && self.encodable() == self@.fits());
        write_flag(w, self.last_block)?;
        w.write_u32(self.block_number)?;
        w.write_length_prefixed(self.raw_data)?;
        assert(w.sink().bytes =~= w0 + self@.enc());
        Ok(())
    }
}

impl<'a> Decode<'a> for DataBlockSA<'a> {
    open spec fn parse(c: Cursor) -> Result<(DataBlockSAV, Cursor)> {
        DataBlockSAV::p(c)
    }

    fn decode(r: &mut Reader<'a>) -> (res: Result<Self>) {
        proof {
            reveal(DataBlockSAV::p);
            assert(Self::parse(r@) == DataBlockSAV::p(r@));
        }
        let last_block = read_flag(r)?;
        let block_number = read_u32(r)?;
        let raw_data = r.length_prefixed()?;
        Ok(DataBlockSA { last_block, block_number, raw_data })
    }
}

/// Append which form of a service follows, and of which invocation.
fn write_choice<W: Writer>(w: &mut W, choice: u8, invoke_id: InvokeId) -> (r: Result<()>)
    ensures
        appended(old(w).sink(), final(w).sink(), seq![choice] + invoke_id.enc(), true, r),
{
    let ghost w0 = w.sink();
    w.write_u8(choice)?;
    let ghost w1 = w.sink();
    let r = invoke_id.write(w);
    proof {
        lemma_then(w0, w1, w.sink(), seq![choice], invoke_id.enc(), true, r);
    }
    r
}

/// Append which form of a service follows, of which invocation, and which part of which
/// attribute it is about.
fn write_part<W: Writer>(
    w: &mut W,
    choice: u8,
    invoke_id: InvokeId,
    descriptor: &AttributeDescriptor,
    access: &Option<SelectiveAccess<'_>>,
) -> (r: Result<()>)
    ensures
        appended(
            old(w).sink(),
            final(w).sink(),
            seq![choice] + invoke_id.enc() + descriptor@.enc() + enc_opt::<
                SelectiveAccess<'static>,
            >(opt_view(*access)),
            descriptor@.fits() && fits_opt::<SelectiveAccess<'static>>(opt_view(*access)),
            r,
        ),
{
    let ghost w0 = w.sink().bytes;
    assert(descriptor.enc() == descriptor@.enc() && descriptor.encodable() == descriptor@.fits());
    write_choice(w, choice, invoke_id)?;
    descriptor.encode(w)?;
    write_opt(w, access)?;
    assert(w.sink().bytes =~= w0 + (seq![choice] + invoke_id.enc() + descriptor@.enc() + enc_opt::<
        SelectiveAccess<'static>,
    >(opt_view(*access))));
    Ok(())
}

/// A read.
#[verifier::ext_equal]
pub enum GetRequestV {
    /// Of one attribute.
    Normal {
        /// Which invocation.
        invoke_id: InvokeId,
        /// The attribute.
        descriptor: AttributeDescriptorV,
        /// The part of it.
        access: Option<SelectiveAccessV>,
    },
    /// Of the next block.
    Next {
        /// Which invocation.
        invoke_id: InvokeId,
        /// The number of the block.
        block_number: u32,
    },
    /// Of several attributes.
    WithList {
        /// Which invocation.
        invoke_id: InvokeId,
        /// The attributes.
        list: Seq<AttributeDescriptorWithSelectionV>,
    },
}

/// A read.
#[derive(Debug, Clone, PartialEq)]
pub enum GetRequest<'a> {
    /// Of one attribute.
    Normal {
        /// Which invocation.
        invoke_id: InvokeId,
        /// The attribute.
        descriptor: AttributeDescriptor,
        /// The part of it.
        access: Option<SelectiveAccess<'a>>,
    },
    /// Of the next block.
    Next {
        /// Which invocation.
        invoke_id: InvokeId,
        /// The number of the block.
        block_number: u32,
    },
    /// Of several attributes.
    WithList {
        /// Which invocation.
        invoke_id: InvokeId,
        /// The attributes.
        list: Vec<AttributeDescriptorWithSelection<'a>>,
    },
}

impl<'a> View for GetRequest<'a> {
    type V = GetRequestV;

    open spec fn view(&self) -> GetRequestV {
        match *self {
            GetRequest::Normal { invoke_id, descriptor, access } => GetRequestV::Normal {
                invoke_id: invoke_id,
                descriptor: descriptor@,
                access: opt_view(access),
            },
            GetRequest::Next { invoke_id, block_number } => GetRequestV::Next {
                invoke_id: invoke_id,
                block_number: block_number,
            },
            GetRequest::WithList { invoke_id, list } => GetRequestV::WithList {
                invoke_id: invoke_id,
                list: views(list@),
            },
        }
    }
}

impl GetRequestV {
    /// The encoding.
    #[verifier::opaque]
    pub open spec fn enc(self) -> Seq<u8> {
        match self {
            GetRequestV::Normal { invoke_id, descriptor, access } => seq![1u8]
                + invoke_id.enc()
                + descriptor.enc()
                + enc_opt::<SelectiveAccess<'static>>(access),
            GetRequestV::Next { invoke_id, block_number } => seq![2u8]
                + invoke_id.enc()
                + be_bytes(block_number as nat, 4),
            GetRequestV::WithList { invoke_id, list } => seq![3u8]
                + invoke_id.enc()
                + enc_list::<AttributeDescriptorWithSelection<'static>>(list),
        }
    }

    /// Whether there is one.
    pub open spec fn fits(self) -> bool {
        match self {
            GetRequestV::Normal { descriptor, access, .. } => descriptor.fits()
                && fits_opt::<SelectiveAccess<'static>>(access),
            GetRequestV::Next { .. } => true,
            GetRequestV::WithList { list, .. } => fits_list::<AttributeDescriptorWithSelection<'static>>(
                list,
            ),
        }
    }

    /// What stands at a cursor.
    #[verifier::opaque]
    pub open spec fn p(c: Cursor) -> Result<(GetRequestV, Cursor)> {
        match p_u8(c) {
            Err(e) => Err(e),
            Ok((tag, c0)) => if tag == 1 {
                match InvokeId::p(c0) {
                    Err(e) => Err(e),
                    Ok((invoke_id, c1)) => match AttributeDescriptorV::p(c1) {
                        Err(e) => Err(e),
                        Ok((descriptor, c2)) => match p_opt::<SelectiveAccess<'static>>(c2) {
                            Err(e) => Err(e),
                            Ok((access, c3)) => Ok(
                                (
                                    GetRequestV::Normal { invoke_id, descriptor, access },
                                    c3,
                                ),
                            ),
                        },
                    },
                }
            } else if tag == 2 {
                match InvokeId::p(c0) {
                    Err(e) => Err(e),
                    Ok((invoke_id, c1)) => match p_u32(c1) {
                        Err(e) => Err(e),
                        Ok((block_number, c2)) => Ok(
                            (
                                GetRequestV::Next { invoke_id, block_number },
                                c2,
                            ),
                        ),
                    },
                }
            } else if tag == 3 {
                match InvokeId::p(c0) {
                    Err(e) => Err(e),
                    Ok((invoke_id, c1)) => match p_list::<AttributeDescriptorWithSelection<'static>>(c1) {
                        Err(e) => Err(e),
                        Ok((list, c2)) => Ok((GetRequestV::WithList { invoke_id, list }, c2)),
                    },
                }
            } else {
                Err(err_before(ErrorKind::InvalidTag(tag), c0.at(), 1))
            },
        }
    }
}

impl<'a> Encode for GetRequest<'a> {
    open spec fn enc(&self) -> Seq<u8> {
        self@.enc()
    }

    open spec fn encodable(&self) -> bool {
        self@.fits()
    }

    fn encode<W: Writer>(&self, w: &mut W) -> (r: Result<()>) {
        proof {
            reveal(GetRequestV::enc);
            assert(self.enc() == self@.enc() && self.encodable() == self@.fits());
        }
        let ghost w0 = w.sink().bytes;
        match self {
            GetRequest::Normal { invoke_id, descriptor, access } => {
                write_choice(w, 1, *invoke_id)?;
                descriptor.encode(w)?;
                write_opt(w, access)?;
            },
            GetRequest::Next { invoke_id, block_number } => {
                write_choice(w, 2, *invoke_id)?;
                w.write_u32(*block_number)?;
            },
            GetRequest::WithList { invoke_id, list } => {
                write_choice(w, 3, *invoke_id)?;
                write_list(w, list)?;
            },
        }
        assert(w.sink().bytes =~= w0 + self@.enc());
        Ok(())
    }
}

impl<'a> Decode<'a> for GetRequest<'a> {
    open spec fn parse(c: Cursor) -> Result<(GetRequestV, Cursor)> {
        GetRequestV::p(c)
    }

    fn decode(r: &mut Reader<'a>) -> (res: Result<Self>) {
        proof {
            reveal(GetRequestV::p);
            assert(Self::parse(r@) == GetRequestV::p(r@));
        }
        let tag = r.u8()?;
        match tag {
            1 => {
                let invoke_id = InvokeId::read(r)?;
                let descriptor = AttributeDescriptor::decode(r)?;
                let access = read_opt(r)?;
                Ok(GetRequest::Normal { invoke_id, descriptor, access })
            },
            2 => {
                let invoke_id = InvokeId::read(r)?;
                let block_number = read_u32(r)?;
                Ok(GetRequest::Next { invoke_id, block_number })
            },
            3 => {
                let invoke_id = InvokeId::read(r)?;
                let list = read_list(r)?;
                Ok(GetRequest::WithList { invoke_id, list })
            },
            _ => Err(r.err_back(ErrorKind::InvalidTag(tag), 1)),
        }
    }
}

/// The answer to a read.
#[verifier::ext_equal]
pub enum GetResponseV {
    /// To a read of one attribute.
    Normal {
        /// Which invocation.
        invoke_id: InvokeId,
        /// The value, or why there is none.
        result: GetDataResultV,
    },
    /// One block of a long answer.
    WithDataBlock {
        /// Which invocation.
        invoke_id: InvokeId,
        /// The block.
        block: DataBlockGV,
    },
    /// To a read of several.
    WithList {
        /// Which invocation.
        invoke_id: InvokeId,
        /// One result for each.
        results: Seq<GetDataResultV>,
    },
}

/// The answer to a read.
#[derive(Debug, Clone, PartialEq)]
pub enum GetResponse<'a> {
    /// To a read of one attribute.
    Normal {
        /// Which invocation.
        invoke_id: InvokeId,
        /// The value, or why there is none.
        result: GetDataResult<'a>,
    },
    /// One block of a long answer.
    WithDataBlock {
        /// Which invocation.
        invoke_id: InvokeId,
        /// The block.
        block: DataBlockG<'a>,
    },
    /// To a read of several.
    WithList {
        /// Which invocation.
        invoke_id: InvokeId,
        /// One result for each.
        results: Vec<GetDataResult<'a>>,
    },
}

impl<'a> View for GetResponse<'a> {
    type V = GetResponseV;

    open spec fn view(&self) -> GetResponseV {
        match *self {
            GetResponse::Normal { invoke_id, result } => GetResponseV::Normal {
                invoke_id: invoke_id,
                result: result@,
            },
            GetResponse::WithDataBlock { invoke_id, block } => GetResponseV::WithDataBlock {
                invoke_id: invoke_id,
                block: block@,
            },
            GetResponse::WithList { invoke_id, results } => GetResponseV::WithList {
                invoke_id: invoke_id,
                results: views(results@),
            },
        }
    }
}

impl GetResponseV {
    /// The encoding.
    #[verifier::opaque]
    pub open spec fn enc(self) -> Seq<u8> {
        match self {
            GetResponseV::Normal { invoke_id, result } => seq![1u8]
                + invoke_id.enc()
                + result.enc(),
            GetResponseV::WithDataBlock { invoke_id, block } => seq![2u8]
                + invoke_id.enc()
                + block.enc(),
            GetResponseV::WithList { invoke_id, results } => seq![3u8]
                + invoke_id.enc()
                + enc_list::<GetDataResult<'static>>(results),
        }
    }

    /// Whether there is one.
    pub open spec fn fits(self) -> bool {
        match self {
            GetResponseV::Normal { result, .. } => result.fits(),
            GetResponseV::WithDataBlock { block, .. } => block.fits(),
            GetResponseV::WithList { results, .. } => fits_list::<GetDataResult<'static>>(results),
        }
    }

    /// What stands at a cursor.
    #[verifier::opaque]
    pub open spec fn p(c: Cursor) -> Result<(GetResponseV, Cursor)> {
        match p_u8(c) {
            Err(e) => Err(e),
            Ok((tag, c0)) => if tag == 1 {
                match InvokeId::p(c0) {
                    Err(e) => Err(e),
                    Ok((invoke_id, c1)) => match GetDataResultV::p(c1) {
                        Err(e) => Err(e),
                        Ok((result, c2)) => Ok((GetResponseV::Normal { invoke_id, result }, c2)),
                    },
                }
            } else if tag == 2 {
                match InvokeId::p(c0) {
                    Err(e) => Err(e),
                    Ok((invoke_id, c1)) => match DataBlockGV::p(c1) {
                        Err(e) => Err(e),
                        Ok((block, c2)) => Ok(
                            (
                                GetResponseV::WithDataBlock { invoke_id, block },
                                c2,
                            ),
                        ),
                    },
                }
            } else if tag == 3 {
                match InvokeId::p(c0) {
                    Err(e) => Err(e),
                    Ok((invoke_id, c1)) => match p_list::<GetDataResult<'static>>(c1) {
                        Err(e) => Err(e),
                        Ok((results, c2)) => Ok(
                            (
                                GetResponseV::WithList { invoke_id, results },
                                c2,
                            ),
                        ),
                    },
                }
            } else {
                Err(err_before(ErrorKind::InvalidTag(tag), c0.at(), 1))
            },
        }
    }
}

impl<'a> Encode for GetResponse<'a> {
    open spec fn enc(&self) -> Seq<u8> {
        self@.enc()
    }

    open spec fn encodable(&self) -> bool {
        self@.fits()
    }

    fn encode<W: Writer>(&self, w: &mut W) -> (r: Result<()>) {
        proof {
            reveal(GetResponseV::enc);
            assert(self.enc() == self@.enc() && self.encodable() == self@.fits());
        }
        let ghost w0 = w.sink().bytes;
        match self {
            GetResponse::Normal { invoke_id, result } => {
                write_choice(w, 1, *invoke_id)?;
                result.encode(w)?;
            },
            GetResponse::WithDataBlock { invoke_id, block } => {
                write_choice(w, 2, *invoke_id)?;
                block.encode(w)?;
            },
            GetResponse::WithList { invoke_id, results } => {
                write_choice(w, 3, *invoke_id)?;
                write_list(w, results)?;
            },
        }
        assert(w.sink().bytes =~= w0 + self@.enc());
        Ok(())
    }
}

impl<'a> Decode<'a> for GetResponse<'a> {
    open spec fn parse(c: Cursor) -> Result<(GetResponseV, Cursor)> {
        GetResponseV::p(c)
    }

    fn decode(r: &mut Reader<'a>) -> (res: Result<Self>) {
        proof {
            reveal(GetResponseV::p);
            assert(Self::parse(r@) == GetResponseV::p(r@));
        }
        let tag = r.u8()?;
        match tag {
            1 => {
                let invoke_id = InvokeId::read(r)?;
                let result = GetDataResult::decode(r)?;
                Ok(GetResponse::Normal { invoke_id, result })
            },
            2 => {
                let invoke_id = InvokeId::read(r)?;
                let block = DataBlockG::decode(r)?;
                Ok(GetResponse::WithDataBlock { invoke_id, block })
            },
            3 => {
                let invoke_id = InvokeId::read(r)?;
                let results = read_list(r)?;
                Ok(GetResponse::WithList { invoke_id, results })
            },
            _ => Err(r.err_back(ErrorKind::InvalidTag(tag), 1)),
        }
    }
}

/// A write.
#[verifier::ext_equal]
pub enum SetRequestV {
    /// Of one attribute.
    Normal {
        /// Which invocation.
        invoke_id: InvokeId,
        /// The attribute.
        descriptor: AttributeDescriptorV,
        /// The part of it.
        access: Option<SelectiveAccessV>,
        /// The value.
        value: DataV,
    },
    /// Of one attribute, the first block of it.
    WithFirstDataBlock {
        /// Which invocation.
        invoke_id: InvokeId,
        /// The attribute.
        descriptor: AttributeDescriptorV,
        /// The part of it.
        access: Option<SelectiveAccessV>,
        /// The block.
        block: DataBlockSAV,
    },
    /// A further block.
    WithDataBlock {
        /// Which invocation.
        invoke_id: InvokeId,
        /// The block.
        block: DataBlockSAV,
    },
    /// Of several attributes.
    WithList {
        /// Which invocation.
        invoke_id: InvokeId,
        /// The attributes.
        descriptors: Seq<AttributeDescriptorWithSelectionV>,
        /// The values.
        values: Seq<DataV>,
    },
    /// Of several attributes, the first block of the values.
    WithListAndFirstDataBlock {
        /// Which invocation.
        invoke_id: InvokeId,
        /// The attributes.
        descriptors: Seq<AttributeDescriptorWithSelectionV>,
        /// The block.
        block: DataBlockSAV,
    },
}

/// A write.
#[derive(Debug, Clone, PartialEq)]
pub enum SetRequest<'a> {
    /// Of one attribute.
    Normal {
        /// Which invocation.
        invoke_id: InvokeId,
        /// The attribute.
        descriptor: AttributeDescriptor,
        /// The part of it.
        access: Option<SelectiveAccess<'a>>,
        /// The value.
        value: Data<'a>,
    },
    /// Of one attribute, the first block of it.
    WithFirstDataBlock {
        /// Which invocation.
        invoke_id: InvokeId,
        /// The attribute.
        descriptor: AttributeDescriptor,
        /// The part of it.
        access: Option<SelectiveAccess<'a>>,
        /// The block.
        block: DataBlockSA<'a>,
    },
    /// A further block.
    WithDataBlock {
        /// Which invocation.
        invoke_id: InvokeId,
        /// The block.
        block: DataBlockSA<'a>,
    },
    /// Of several attributes.
    WithList {
        /// Which invocation.
        invoke_id: InvokeId,
        /// The attributes.
        descriptors: Vec<AttributeDescriptorWithSelection<'a>>,
        /// The values.
        values: Vec<Data<'a>>,
    },
    /// Of several attributes, the first block of the values.
    WithListAndFirstDataBlock {
        /// Which invocation.
        invoke_id: InvokeId,
        /// The attributes.
        descriptors: Vec<AttributeDescriptorWithSelection<'a>>,
        /// The block.
        block: DataBlockSA<'a>,
    },
}

impl<'a> View for SetRequest<'a> {
    type V = SetRequestV;

    open spec fn view(&self) -> SetRequestV {
        match *self {
            SetRequest::Normal { invoke_id, descriptor, access, value } => SetRequestV::Normal {
                invoke_id: invoke_id,
                descriptor: descriptor@,
                access: opt_view(access),
                value: value@,
            },
            SetRequest::WithFirstDataBlock { invoke_id, descriptor, access, block } => SetRequestV::WithFirstDataBlock {
                invoke_id: invoke_id,
                descriptor: descriptor@,
                access: opt_view(access),
                block: block@,
            },
            SetRequest::WithDataBlock { invoke_id, block } => SetRequestV::WithDataBlock {
                invoke_id: invoke_id,
                block: block@,
            },
            SetRequest::WithList { invoke_id, descriptors, values } => SetRequestV::WithList {
                invoke_id: invoke_id,
                descriptors: views(descriptors@),
                values: views(values@),
            },
            SetRequest::WithListAndFirstDataBlock { invoke_id, descriptors, block } => SetRequestV::WithListAndFirstDataBlock {
                invoke_id: invoke_id,
                descriptors: views(descriptors@),
                block: block@,
            },
        }
    }
}

impl SetRequestV {
    /// The encoding.
    #[verifier::opaque]
    pub open spec fn enc(self) -> Seq<u8> {
        match self {
            SetRequestV::Normal { invoke_id, descriptor, access, value } => seq![1u8]
                + invoke_id.enc()
                + descriptor.enc()
                + enc_opt::<SelectiveAccess<'static>>(access)
                + value.enc(),
            SetRequestV::WithFirstDataBlock { invoke_id, descriptor, access, block } => seq![2u8]
                + invoke_id.enc()
                + descriptor.enc()
                + enc_opt::<SelectiveAccess<'static>>(access)
                + block.enc(),
            SetRequestV::WithDataBlock { invoke_id, block } => seq![3u8]
                + invoke_id.enc()
                + block.enc(),
            SetRequestV::WithList { invoke_id, descriptors, values } => seq![4u8]
                + invoke_id.enc()
                + enc_list::<AttributeDescriptorWithSelection<'static>>(descriptors)
                + enc_list::<Data<'static>>(values),
            SetRequestV::WithListAndFirstDataBlock { invoke_id, descriptors, block } => seq![5u8]
                + invoke_id.enc()
                + enc_list::<AttributeDescriptorWithSelection<'static>>(descriptors)
                + block.enc(),
        }
    }

    /// Whether there is one.
    pub open spec fn fits(self) -> bool {
        match self {
            SetRequestV::Normal { descriptor, access, value, .. } => descriptor.fits()
                && fits_opt::<SelectiveAccess<'static>>(access)
                && value.encodable(),
            SetRequestV::WithFirstDataBlock { descriptor, access, block, .. } => descriptor.fits()
                && fits_opt::<SelectiveAccess<'static>>(access)
                && block.fits(),
            SetRequestV::WithDataBlock { block, .. } => block.fits(),
            SetRequestV::WithList { descriptors, values, .. } => fits_list::<AttributeDescriptorWithSelection<'static>>(
                descriptors,
            )
                && fits_list::<Data<'static>>(values),
            SetRequestV::WithListAndFirstDataBlock { descriptors, block, .. } => fits_list::<AttributeDescriptorWithSelection<'static>>(
                descriptors,
            )
                && block.fits(),
        }
    }

    /// What stands at a cursor.
    #[verifier::opaque]
    pub open spec fn p(c: Cursor) -> Result<(SetRequestV, Cursor)> {
        match p_u8(c) {
            Err(e) => Err(e),
            Ok((tag, c0)) => if tag == 1 {
                match InvokeId::p(c0) {
                    Err(e) => Err(e),
                    Ok((invoke_id, c1)) => match AttributeDescriptorV::p(c1) {
                        Err(e) => Err(e),
                        Ok((descriptor, c2)) => match p_opt::<SelectiveAccess<'static>>(c2) {
                            Err(e) => Err(e),
                            Ok((access, c3)) => match p_data(c3, 0) {
                                Err(e) => Err(e),
                                Ok((value, c4)) => Ok(
                                    (
                                        SetRequestV::Normal {
                                            invoke_id,
                                            descriptor,
                                            access,
                                            value,
                                        },
                                        c4,
                                    ),
                                ),
                            },
                        },
                    },
                }
            } else if tag == 2 {
                match InvokeId::p(c0) {
                    Err(e) => Err(e),
                    Ok((invoke_id, c1)) => match AttributeDescriptorV::p(c1) {
                        Err(e) => Err(e),
                        Ok((descriptor, c2)) => match p_opt::<SelectiveAccess<'static>>(c2) {
                            Err(e) => Err(e),
                            Ok((access, c3)) => match DataBlockSAV::p(c3) {
                                Err(e) => Err(e),
                                Ok((block, c4)) => Ok(
                                    (
                                        SetRequestV::WithFirstDataBlock {
                                            invoke_id,
                                            descriptor,
                                            access,
                                            block,
                                        },
                                        c4,
                                    ),
                                ),
                            },
                        },
                    },
                }
            } else if tag == 3 {
                match InvokeId::p(c0) {
                    Err(e) => Err(e),
                    Ok((invoke_id, c1)) => match DataBlockSAV::p(c1) {
                        Err(e) => Err(e),
                        Ok((block, c2)) => Ok(
                            (
                                SetRequestV::WithDataBlock { invoke_id, block },
                                c2,
                            ),
                        ),
                    },
                }
            } else if tag == 4 {
                match InvokeId::p(c0) {
                    Err(e) => Err(e),
                    Ok((invoke_id, c1)) => match p_list::<AttributeDescriptorWithSelection<'static>>(c1) {
                        Err(e) => Err(e),
                        Ok((descriptors, c2)) => match p_list::<Data<'static>>(c2) {
                            Err(e) => Err(e),
                            Ok((values, c3)) => Ok(
                                (
                                    SetRequestV::WithList { invoke_id, descriptors, values },
                                    c3,
                                ),
                            ),
                        },
                    },
                }
            } else if tag == 5 {
                match InvokeId::p(c0) {
                    Err(e) => Err(e),
                    Ok((invoke_id, c1)) => match p_list::<AttributeDescriptorWithSelection<'static>>(c1) {
                        Err(e) => Err(e),
                        Ok((descriptors, c2)) => match DataBlockSAV::p(c2) {
                            Err(e) => Err(e),
                            Ok((block, c3)) => Ok(
                                (
                                    SetRequestV::WithListAndFirstDataBlock {
                                        invoke_id,
                                        descriptors,
                                        block,
                                    },
                                    c3,
                                ),
                            ),
                        },
                    },
                }
            } else {
                Err(err_before(ErrorKind::InvalidTag(tag), c0.at(), 1))
            },
        }
    }
}

impl<'a> Encode for SetRequest<'a> {
    open spec fn enc(&self) -> Seq<u8> {
        self@.enc()
    }

    open spec fn encodable(&self) -> bool {
        self@.fits()
    }

    #[verifier::rlimit(40)]
    fn encode<W: Writer>(&self, w: &mut W) -> (r: Result<()>) {
        proof {
            reveal(SetRequestV::enc);
            assert(self.enc() == self@.enc() && self.encodable() == self@.fits());
        }
        let ghost w0 = w.sink().bytes;
        match self {
            SetRequest::Normal { invoke_id, descriptor, access, value } => {
                write_part(w, 1, *invoke_id, descriptor, access)?;
                value.encode(w)?;
            },
            SetRequest::WithFirstDataBlock { invoke_id, descriptor, access, block } => {
                write_part(w, 2, *invoke_id, descriptor, access)?;
                block.encode(w)?;
            },
            SetRequest::WithDataBlock { invoke_id, block } => {
                write_choice(w, 3, *invoke_id)?;
                block.encode(w)?;
            },
            SetRequest::WithList { invoke_id, descriptors, values } => {
                write_choice(w, 4, *invoke_id)?;
                write_list(w, descriptors)?;
                write_list(w, values)?;
            },
            SetRequest::WithListAndFirstDataBlock { invoke_id, descriptors, block } => {
                write_choice(w, 5, *invoke_id)?;
                write_list(w, descriptors)?;
                block.encode(w)?;
            },
        }
        assert(w.sink().bytes =~= w0 + self@.enc());
        Ok(())
    }
}

impl<'a> Decode<'a> for SetRequest<'a> {
    open spec fn parse(c: Cursor) -> Result<(SetRequestV, Cursor)> {
        SetRequestV::p(c)
    }

    fn decode(r: &mut Reader<'a>) -> (res: Result<Self>) {
        proof {
            reveal(SetRequestV::p);
            assert(Self::parse(r@) == SetRequestV::p(r@));
        }
        let tag = r.u8()?;
        match tag {
            1 => {
                let invoke_id = InvokeId::read(r)?;
                let descriptor = AttributeDescriptor::decode(r)?;
                let access = read_opt(r)?;
                let value = Data::decode(r)?;
                Ok(SetRequest::Normal { invoke_id, descriptor, access, value })
            },
            2 => {
                let invoke_id = InvokeId::read(r)?;
                let descriptor = AttributeDescriptor::decode(r)?;
                let access = read_opt(r)?;
                let block = DataBlockSA::decode(r)?;
                Ok(SetRequest::WithFirstDataBlock { invoke_id, descriptor, access, block })
            },
            3 => {
                let invoke_id = InvokeId::read(r)?;
                let block = DataBlockSA::decode(r)?;
                Ok(SetRequest::WithDataBlock { invoke_id, block })
            },
            4 => {
                let invoke_id = InvokeId::read(r)?;
                let descriptors = read_list(r)?;
                let values = read_list(r)?;
                Ok(SetRequest::WithList { invoke_id, descriptors, values })
            },
            5 => {
                let invoke_id = InvokeId::read(r)?;
                let descriptors = read_list(r)?;
                let block = DataBlockSA::decode(r)?;
                Ok(SetRequest::WithListAndFirstDataBlock { invoke_id, descriptors, block })
            },
            _ => Err(r.err_back(ErrorKind::InvalidTag(tag), 1)),
        }
    }
}

/// The answer to a write.
#[verifier::ext_equal]
pub enum SetResponseV {
    /// To a write of one attribute.
    Normal {
        /// Which invocation.
        invoke_id: InvokeId,
        /// What it came to.
        result: DataAccessResult,
    },
    /// A block has been taken.
    DataBlock {
        /// Which invocation.
        invoke_id: InvokeId,
        /// The number of the block.
        block_number: u32,
    },
    /// To the last block.
    LastDataBlock {
        /// Which invocation.
        invoke_id: InvokeId,
        /// What it came to.
        result: DataAccessResult,
        /// The number of the block.
        block_number: u32,
    },
    /// To the last block of several.
    LastDataBlockWithList {
        /// Which invocation.
        invoke_id: InvokeId,
        /// What each came to.
        results: Seq<DataAccessResult>,
        /// The number of the block.
        block_number: u32,
    },
    /// To a write of several.
    WithList {
        /// Which invocation.
        invoke_id: InvokeId,
        /// What each came to.
        results: Seq<DataAccessResult>,
    },
}

/// The answer to a write.
#[derive(Debug, Clone, PartialEq)]
pub enum SetResponse {
    /// To a write of one attribute.
    Normal {
        /// Which invocation.
        invoke_id: InvokeId,
        /// What it came to.
        result: DataAccessResult,
    },
    /// A block has been taken.
    DataBlock {
        /// Which invocation.
        invoke_id: InvokeId,
        /// The number of the block.
        block_number: u32,
    },
    /// To the last block.
    LastDataBlock {
        /// Which invocation.
        invoke_id: InvokeId,
        /// What it came to.
        result: DataAccessResult,
        /// The number of the block.
        block_number: u32,
    },
    /// To the last block of several.
    LastDataBlockWithList {
        /// Which invocation.
        invoke_id: InvokeId,
        /// What each came to.
        results: Vec<DataAccessResult>,
        /// The number of the block.
        block_number: u32,
    },
    /// To a write of several.
    WithList {
        /// Which invocation.
        invoke_id: InvokeId,
        /// What each came to.
        results: Vec<DataAccessResult>,
    },
}

impl View for SetResponse {
    type V = SetResponseV;

    open spec fn view(&self) -> SetResponseV {
        match *self {
            SetResponse::Normal { invoke_id, result } => SetResponseV::Normal {
                invoke_id: invoke_id,
                result: result,
            },
            SetResponse::DataBlock { invoke_id, block_number } => SetResponseV::DataBlock {
                invoke_id: invoke_id,
                block_number: block_number,
            },
            SetResponse::LastDataBlock { invoke_id, result, block_number } => SetResponseV::LastDataBlock {
                invoke_id: invoke_id,
                result: result,
                block_number: block_number,
            },
            SetResponse::LastDataBlockWithList { invoke_id, results, block_number } => SetResponseV::LastDataBlockWithList {
                invoke_id: invoke_id,
                results: views(results@),
                block_number: block_number,
            },
            SetResponse::WithList { invoke_id, results } => SetResponseV::WithList {
                invoke_id: invoke_id,
                results: views(results@),
            },
        }
    }
}

impl SetResponseV {
    /// The encoding.
    #[verifier::opaque]
    pub open spec fn enc(self) -> Seq<u8> {
        match self {
            SetResponseV::Normal { invoke_id, result } => seq![1u8]
                + invoke_id.enc()
                + seq![result.as_u8()],
            SetResponseV::DataBlock { invoke_id, block_number } => seq![2u8]
                + invoke_id.enc()
                + be_bytes(block_number as nat, 4),
            SetResponseV::LastDataBlock { invoke_id, result, block_number } => seq![3u8]
                + invoke_id.enc()
                + seq![result.as_u8()]
                + be_bytes(block_number as nat, 4),
            SetResponseV::LastDataBlockWithList { invoke_id, results, block_number } => seq![4u8]
                + invoke_id.enc()
                + enc_list::<DataAccessResult>(results)
                + be_bytes(block_number as nat, 4),
            SetResponseV::WithList { invoke_id, results } => seq![5u8]
                + invoke_id.enc()
                + enc_list::<DataAccessResult>(results),
        }
    }

    /// Whether there is one.
    pub open spec fn fits(self) -> bool {
        match self {
            SetResponseV::Normal { .. } => true,
            SetResponseV::DataBlock { .. } => true,
            SetResponseV::LastDataBlock { .. } => true,
            SetResponseV::LastDataBlockWithList { results, .. } => fits_list::<DataAccessResult>(
                results,
            ),
            SetResponseV::WithList { results, .. } => fits_list::<DataAccessResult>(results),
        }
    }

    /// What stands at a cursor.
    #[verifier::opaque]
    pub open spec fn p(c: Cursor) -> Result<(SetResponseV, Cursor)> {
        match p_u8(c) {
            Err(e) => Err(e),
            Ok((tag, c0)) => if tag == 1 {
                match InvokeId::p(c0) {
                    Err(e) => Err(e),
                    Ok((invoke_id, c1)) => match DataAccessResult::p(c1) {
                        Err(e) => Err(e),
                        Ok((result, c2)) => Ok((SetResponseV::Normal { invoke_id, result }, c2)),
                    },
                }
            } else if tag == 2 {
                match InvokeId::p(c0) {
                    Err(e) => Err(e),
                    Ok((invoke_id, c1)) => match p_u32(c1) {
                        Err(e) => Err(e),
                        Ok((block_number, c2)) => Ok(
                            (
                                SetResponseV::DataBlock { invoke_id, block_number },
                                c2,
                            ),
                        ),
                    },
                }
            } else if tag == 3 {
                match InvokeId::p(c0) {
                    Err(e) => Err(e),
                    Ok((invoke_id, c1)) => match DataAccessResult::p(c1) {
                        Err(e) => Err(e),
                        Ok((result, c2)) => match p_u32(c2) {
                            Err(e) => Err(e),
                            Ok((block_number, c3)) => Ok(
                                (
                                    SetResponseV::LastDataBlock { invoke_id, result, block_number },
                                    c3,
                                ),
                            ),
                        },
                    },
                }
            } else if tag == 4 {
                match InvokeId::p(c0) {
                    Err(e) => Err(e),
                    Ok((invoke_id, c1)) => match p_list::<DataAccessResult>(c1) {
                        Err(e) => Err(e),
                        Ok((results, c2)) => match p_u32(c2) {
                            Err(e) => Err(e),
                            Ok((block_number, c3)) => Ok(
                                (
                                    SetResponseV::LastDataBlockWithList {
                                        invoke_id,
                                        results,
                                        block_number,
                                    },
                                    c3,
                                ),
                            ),
                        },
                    },
                }
            } else if tag == 5 {
                match InvokeId::p(c0) {
                    Err(e) => Err(e),
                    Ok((invoke_id, c1)) => match p_list::<DataAccessResult>(c1) {
                        Err(e) => Err(e),
                        Ok((results, c2)) => Ok(
                            (
                                SetResponseV::WithList { invoke_id, results },
                                c2,
                            ),
                        ),
                    },
                }
            } else {
                Err(err_before(ErrorKind::InvalidTag(tag), c0.at(), 1))
            },
        }
    }
}

impl Encode for SetResponse {
    open spec fn enc(&self) -> Seq<u8> {
        self@.enc()
    }

    open spec fn encodable(&self) -> bool {
        self@.fits()
    }

    fn encode<W: Writer>(&self, w: &mut W) -> (r: Result<()>) {
        proof {
            reveal(SetResponseV::enc);
            assert(self.enc() == self@.enc() && self.encodable() == self@.fits());
        }
        let ghost w0 = w.sink().bytes;
        match self {
            SetResponse::Normal { invoke_id, result } => {
                write_choice(w, 1, *invoke_id)?;
                w.write_u8((*result).as_u8())?;
            },
            SetResponse::DataBlock { invoke_id, block_number } => {
                write_choice(w, 2, *invoke_id)?;
                w.write_u32(*block_number)?;
            },
            SetResponse::LastDataBlock { invoke_id, result, block_number } => {
                write_choice(w, 3, *invoke_id)?;
                w.write_u8((*result).as_u8())?;
                w.write_u32(*block_number)?;
            },
            SetResponse::LastDataBlockWithList { invoke_id, results, block_number } => {
                write_choice(w, 4, *invoke_id)?;
                write_list(w, results)?;
                w.write_u32(*block_number)?;
            },
            SetResponse::WithList { invoke_id, results } => {
                write_choice(w, 5, *invoke_id)?;
                write_list(w, results)?;
            },
        }
        assert(w.sink().bytes =~= w0 + self@.enc());
        Ok(())
    }
}

impl<'a> Decode<'a> for SetResponse {
    open spec fn parse(c: Cursor) -> Result<(SetResponseV, Cursor)> {
        SetResponseV::p(c)
    }

    fn decode(r: &mut Reader<'a>) -> (res: Result<Self>) {
        proof {
            reveal(SetResponseV::p);
            assert(Self::parse(r@) == SetResponseV::p(r@));
        }
        let tag = r.u8()?;
        match tag {
            1 => {
                let invoke_id = InvokeId::read(r)?;
                let result = DataAccessResult::read(r)?;
                Ok(SetResponse::Normal { invoke_id, result })
            },
            2 => {
                let invoke_id = InvokeId::read(r)?;
                let block_number = read_u32(r)?;
                Ok(SetResponse::DataBlock { invoke_id, block_number })
            },
            3 => {
                let invoke_id = InvokeId::read(r)?;
                let result = DataAccessResult::read(r)?;
                let block_number = read_u32(r)?;
                Ok(SetResponse::LastDataBlock { invoke_id, result, block_number })
            },
            4 => {
                let invoke_id = InvokeId::read(r)?;
                let results = read_list(r)?;
                let block_number = read_u32(r)?;
                Ok(SetResponse::LastDataBlockWithList { invoke_id, results, block_number })
            },
            5 => {
                let invoke_id = InvokeId::read(r)?;
                let results = read_list(r)?;
                Ok(SetResponse::WithList { invoke_id, results })
            },
            _ => Err(r.err_back(ErrorKind::InvalidTag(tag), 1)),
        }
    }
}

/// What a method came to, and what it returned.
#[verifier::ext_equal]
pub struct ActionResponseWithOptionalDataV {
    /// What it came to.
    pub result: ActionResult,
    /// What it returned.
    pub return_parameters: Option<GetDataResultV>,
}

/// What a method came to, and what it returned.
#[derive(Debug, Clone, Copy, PartialEq)]
pub struct ActionResponseWithOptionalData<'a> {
    /// What it came to.
    pub result: ActionResult,
    /// What it returned.
    pub return_parameters: Option<GetDataResult<'a>>,
}

impl<'a> View for ActionResponseWithOptionalData<'a> {
    type V = ActionResponseWithOptionalDataV;

    open spec fn view(&self) -> ActionResponseWithOptionalDataV {
        ActionResponseWithOptionalDataV {
            result: self.result,
            return_parameters: opt_view(self.return_parameters),
        }
    }
}

impl ActionResponseWithOptionalDataV {
    /// The encoding.
    pub open spec fn enc(self) -> Seq<u8> {
        seq![self.result.as_u8()] + enc_opt::<GetDataResult<'static>>(self.return_parameters)
    }

    /// Whether there is one.
    pub open spec fn fits(self) -> bool {
        fits_opt::<GetDataResult<'static>>(self.return_parameters)
    }

    /// What stands at a cursor.
    #[verifier::opaque]
    pub open spec fn p(c: Cursor) -> Result<(ActionResponseWithOptionalDataV, Cursor)> {
        match ActionResult::p(c) {
            Err(e) => Err(e),
            Ok((result, c1)) => match p_opt::<GetDataResult<'static>>(c1) {
                Err(e) => Err(e),
                Ok((return_parameters, c2)) => Ok(
                    (
                        ActionResponseWithOptionalDataV { result, return_parameters },
                        c2,
                    ),
                ),
            },
        }
    }
}

impl<'a> Encode for ActionResponseWithOptionalData<'a> {
    open spec fn enc(&self) -> Seq<u8> {
        self@.enc()
    }

    open spec fn encodable(&self) -> bool {
        self@.fits()
    }

    fn encode<W: Writer>(&self, w: &mut W) -> (r: Result<()>) {
        let ghost w0 = w.sink().bytes;
        assert(self.enc() == self@.enc() && self.encodable() == self@.fits());
        w.write_u8(self.result.as_u8())?;
        write_opt(w, &self.return_parameters)?;
        assert(w.sink().bytes =~= w0 + self@.enc());
        Ok(())
    }
}

impl<'a> Decode<'a> for ActionResponseWithOptionalData<'a> {
    open spec fn parse(c: Cursor) -> Result<(ActionResponseWithOptionalDataV, Cursor)> {
        ActionResponseWithOptionalDataV::p(c)
    }

    fn decode(r: &mut Reader<'a>) -> (res: Result<Self>) {
        proof {
            reveal(ActionResponseWithOptionalDataV::p);
            assert(Self::parse(r@) == ActionResponseWithOptionalDataV::p(r@));
        }
        let result = ActionResult::read(r)?;
        let return_parameters = read_opt(r)?;
        Ok(ActionResponseWithOptionalData { result, return_parameters })
    }
}

impl<'a> Wire<'a> for ActionResponseWithOptionalData<'a> {
    open spec fn enc_of(v: ActionResponseWithOptionalDataV) -> Seq<u8> {
        v.enc()
    }

    open spec fn fits_of(v: ActionResponseWithOptionalDataV) -> bool {
        v.fits()
    }

    proof fn lemma_enc(&self) {
    }
}

/// An invocation.
#[verifier::ext_equal]
#[allow(inconsistent_fields)]
pub enum ActionRequestV {
    /// Of one method.
    Normal {
        /// Which invocation.
        invoke_id: InvokeId,
        /// The method.
        descriptor: MethodDescriptorV,
        /// The parameter.
        parameters: Option<DataV>,
    },
    /// Of the next block of the answer.
    NextPblock {
        /// Which invocation.
        invoke_id: InvokeId,
        /// The number of the block.
        block_number: u32,
    },
    /// Of several methods.
    WithList {
        /// Which invocation.
        invoke_id: InvokeId,
        /// The methods.
        descriptors: Seq<MethodDescriptorV>,
        /// The parameters.
        parameters: Seq<DataV>,
    },
    /// Of one method, the first block of the parameter.
    WithFirstPblock {
        /// Which invocation.
        invoke_id: InvokeId,
        /// The method.
        descriptor: MethodDescriptorV,
        /// The block.
        block: DataBlockSAV,
    },
    /// Of several methods, the first block of the parameters.
    WithListAndFirstPblock {
        /// Which invocation.
        invoke_id: InvokeId,
        /// The methods.
        descriptors: Seq<MethodDescriptorV>,
        /// The block.
        block: DataBlockSAV,
    },
    /// A further block.
    WithPblock {
        /// Which invocation.
        invoke_id: InvokeId,
        /// The block.
        block: DataBlockSAV,
    },
}

/// An invocation.
#[derive(Debug, Clone, PartialEq)]
#[allow(inconsistent_fields)]
pub enum ActionRequest<'a> {
    /// Of one method.
    Normal {
        /// Which invocation.
        invoke_id: InvokeId,
        /// The method.
        descriptor: MethodDescriptor,
        /// The parameter.
        parameters: Option<Data<'a>>,
    },
    /// Of the next block of the answer.
    NextPblock {
        /// Which invocation.
        invoke_id: InvokeId,
        /// The number of the block.
        block_number: u32,
    },
    /// Of several methods.
    WithList {
        /// Which invocation.
        invoke_id: InvokeId,
        /// The methods.
        descriptors: Vec<MethodDescriptor>,
        /// The parameters.
        parameters: Vec<Data<'a>>,
    },
    /// Of one method, the first block of the parameter.
    WithFirstPblock {
        /// Which invocation.
        invoke_id: InvokeId,
        /// The method.
        descriptor: MethodDescriptor,
        /// The block.
        block: DataBlockSA<'a>,
    },
    /// Of several methods, the first block of the parameters.
    WithListAndFirstPblock {
        /// Which invocation.
        invoke_id: InvokeId,
        /// The methods.
        descriptors: Vec<MethodDescriptor>,
        /// The block.
        block: DataBlockSA<'a>,
    },
    /// A further block.
    WithPblock {
        /// Which invocation.
        invoke_id: InvokeId,
        /// The block.
        block: DataBlockSA<'a>,
    },
}

impl<'a> View for ActionRequest<'a> {
    type V = ActionRequestV;

    open spec fn view(&self) -> ActionRequestV {
        match *self {
            ActionRequest::Normal { invoke_id, descriptor, parameters } => ActionRequestV::Normal {
                invoke_id: invoke_id,
                descriptor: descriptor@,
                parameters: opt_view(parameters),
            },
            ActionRequest::NextPblock { invoke_id, block_number } => ActionRequestV::NextPblock {
                invoke_id: invoke_id,
                block_number: block_number,
            },
            ActionRequest::WithList { invoke_id, descriptors, parameters } => ActionRequestV::WithList {
                invoke_id: invoke_id,
                descriptors: views(descriptors@),
                parameters: views(parameters@),
            },
            ActionRequest::WithFirstPblock { invoke_id, descriptor, block } => ActionRequestV::WithFirstPblock {
                invoke_id: invoke_id,
                descriptor: descriptor@,
                block: block@,
            },
            ActionRequest::WithListAndFirstPblock { invoke_id, descriptors, block } => ActionRequestV::WithListAndFirstPblock {
                invoke_id: invoke_id,
                descriptors: views(descriptors@),
                block: block@,
            },
            ActionRequest::WithPblock { invoke_id, block } => ActionRequestV::WithPblock {
                invoke_id: invoke_id,
                block: block@,
            },
        }
    }
}

impl ActionRequestV {
    /// The encoding.
    #[verifier::opaque]
    pub open spec fn enc(self) -> Seq<u8> {
        match self {
            ActionRequestV::Normal { invoke_id, descriptor, parameters } => seq![1u8]
                + invoke_id.enc()
                + descriptor.enc()
                + enc_opt::<Data<'static>>(parameters),
            ActionRequestV::NextPblock { invoke_id, block_number } => seq![2u8]
                + invoke_id.enc()
                + be_bytes(block_number as nat, 4),
            ActionRequestV::WithList { invoke_id, descriptors, parameters } => seq![3u8]
                + invoke_id.enc()
                + enc_list::<MethodDescriptor>(descriptors)
                + enc_list::<Data<'static>>(parameters),
            ActionRequestV::WithFirstPblock { invoke_id, descriptor, block } => seq![4u8]
                + invoke_id.enc()
                + descriptor.enc()
                + block.enc(),
            ActionRequestV::WithListAndFirstPblock { invoke_id, descriptors, block } => seq![5u8]
                + invoke_id.enc()
                + enc_list::<MethodDescriptor>(descriptors)
                + block.enc(),
            ActionRequestV::WithPblock { invoke_id, block } => seq![6u8]
                + invoke_id.enc()
                + block.enc(),
        }
    }

    /// Whether there is one.
    pub open spec fn fits(self) -> bool {
        match self {
            ActionRequestV::Normal { descriptor, parameters, .. } => descriptor.fits()
                && fits_opt::<Data<'static>>(parameters),
            ActionRequestV::NextPblock { .. } => true,
            ActionRequestV::WithList { descriptors, parameters, .. } => fits_list::<MethodDescriptor>(
                descriptors,
            )
                && fits_list::<Data<'static>>(parameters),
            ActionRequestV::WithFirstPblock { descriptor, block, .. } => descriptor.fits()
                && block.fits(),
            ActionRequestV::WithListAndFirstPblock { descriptors, block, .. } => fits_list::<MethodDescriptor>(
                descriptors,
            )
                && block.fits(),
            ActionRequestV::WithPblock { block, .. } => block.fits(),
        }
    }

    /// What stands at a cursor.
    #[verifier::opaque]
    pub open spec fn p(c: Cursor) -> Result<(ActionRequestV, Cursor)> {
        match p_u8(c) {
            Err(e) => Err(e),
            Ok((tag, c0)) => if tag == 1 {
                match InvokeId::p(c0) {
                    Err(e) => Err(e),
                    Ok((invoke_id, c1)) => match MethodDescriptorV::p(c1) {
                        Err(e) => Err(e),
                        Ok((descriptor, c2)) => match p_opt::<Data<'static>>(c2) {
                            Err(e) => Err(e),
                            Ok((parameters, c3)) => Ok(
                                (
                                    ActionRequestV::Normal { invoke_id, descriptor, parameters },
                                    c3,
                                ),
                            ),
                        },
                    },
                }
            } else if tag == 2 {
                match InvokeId::p(c0) {
                    Err(e) => Err(e),
                    Ok((invoke_id, c1)) => match p_u32(c1) {
                        Err(e) => Err(e),
                        Ok((block_number, c2)) => Ok(
                            (
                                ActionRequestV::NextPblock { invoke_id, block_number },
                                c2,
                            ),
                        ),
                    },
                }
            } else if tag == 3 {
                match InvokeId::p(c0) {
                    Err(e) => Err(e),
                    Ok((invoke_id, c1)) => match p_list::<MethodDescriptor>(c1) {
                        Err(e) => Err(e),
                        Ok((descriptors, c2)) => match p_list::<Data<'static>>(c2) {
                            Err(e) => Err(e),
                            Ok((parameters, c3)) => Ok(
                                (
                                    ActionRequestV::WithList { invoke_id, descriptors, parameters },
                                    c3,
                                ),
                            ),
                        },
                    },
                }
            } else if tag == 4 {
                match InvokeId::p(c0) {
                    Err(e) => Err(e),
                    Ok((invoke_id, c1)) => match MethodDescriptorV::p(c1) {
                        Err(e) => Err(e),
                        Ok((descriptor, c2)) => match DataBlockSAV::p(c2) {
                            Err(e) => Err(e),
                            Ok((block, c3)) => Ok(
                                (
                                    ActionRequestV::WithFirstPblock {
                                        invoke_id,
                                        descriptor,
                                        block,
                                    },
                                    c3,
                                ),
                            ),
                        },
                    },
                }
            } else if tag == 5 {
                match InvokeId::p(c0) {
                    Err(e) => Err(e),
                    Ok((invoke_id, c1)) => match p_list::<MethodDescriptor>(c1) {
                        Err(e) => Err(e),
                        Ok((descriptors, c2)) => match DataBlockSAV::p(c2) {
                            Err(e) => Err(e),
                            Ok((block, c3)) => Ok(
                                (
                                    ActionRequestV::WithListAndFirstPblock {
                                        invoke_id,
                                        descriptors,
                                        block,
                                    },
                                    c3,
                                ),
                            ),
                        },
                    },
                }
            } else if tag == 6 {
                match InvokeId::p(c0) {
                    Err(e) => Err(e),
                    Ok((invoke_id, c1)) => match DataBlockSAV::p(c1) {
                        Err(e) => Err(e),
                        Ok((block, c2)) => Ok(
                            (
                                ActionRequestV::WithPblock { invoke_id, block },
                                c2,
                            ),
                        ),
                    },
                }
            } else {
                Err(err_before(ErrorKind::InvalidTag(tag), c0.at(), 1))
            },
        }
    }
}

impl<'a> Encode for ActionRequest<'a> {
    open spec fn enc(&self) -> Seq<u8> {
        self@.enc()
    }

    open spec fn encodable(&self) -> bool {
        self@.fits()
    }

    #[verifier::rlimit(40)]
    fn encode<W: Writer>(&self, w: &mut W) -> (r: Result<()>) {
        proof {
            reveal(ActionRequestV::enc);
            assert(self.enc() == self@.enc() && self.encodable() == self@.fits());
        }
        let ghost w0 = w.sink().bytes;
        match self {
            ActionRequest::Normal { invoke_id, descriptor, parameters } => {
                write_choice(w, 1, *invoke_id)?;
                descriptor.encode(w)?;
                write_opt(w, parameters)?;
            },
            ActionRequest::NextPblock { invoke_id, block_number } => {
                write_choice(w, 2, *invoke_id)?;
                w.write_u32(*block_number)?;
            },
            ActionRequest::WithList { invoke_id, descriptors, parameters } => {
                write_choice(w, 3, *invoke_id)?;
                write_list(w, descriptors)?;
                write_list(w, parameters)?;
            },
            ActionRequest::WithFirstPblock { invoke_id, descriptor, block } => {
                write_choice(w, 4, *invoke_id)?;
                descriptor.encode(w)?;
                block.encode(w)?;
            },
            ActionRequest::WithListAndFirstPblock { invoke_id, descriptors, block } => {
                write_choice(w, 5, *invoke_id)?;
                write_list(w, descriptors)?;
                block.encode(w)?;
            },
            ActionRequest::WithPblock { invoke_id, block } => {
                write_choice(w, 6, *invoke_id)?;
                block.encode(w)?;
            },
        }
        assert(w.sink().bytes =~= w0 + self@.enc());
        Ok(())
    }
}

impl<'a> Decode<'a> for ActionRequest<'a> {
    open spec fn parse(c: Cursor) -> Result<(ActionRequestV, Cursor)> {
        ActionRequestV::p(c)
    }

    fn decode(r: &mut Reader<'a>) -> (res: Result<Self>) {
        proof {
            reveal(ActionRequestV::p);
            assert(Self::parse(r@) == ActionRequestV::p(r@));
        }
        let tag = r.u8()?;
        match tag {
            1 => {
                let invoke_id = InvokeId::read(r)?;
                let descriptor = MethodDescriptor::decode(r)?;
                let parameters = read_opt(r)?;
                Ok(ActionRequest::Normal { invoke_id, descriptor, parameters })
            },
            2 => {
                let invoke_id = InvokeId::read(r)?;
                let block_number = read_u32(r)?;
                Ok(ActionRequest::NextPblock { invoke_id, block_number })
            },
            3 => {
                let invoke_id = InvokeId::read(r)?;
                let descriptors = read_list(r)?;
                let parameters = read_list(r)?;
                Ok(ActionRequest::WithList { invoke_id, descriptors, parameters })
            },
            4 => {
                let invoke_id = InvokeId::read(r)?;
                let descriptor = MethodDescriptor::decode(r)?;
                let block = DataBlockSA::decode(r)?;
                Ok(ActionRequest::WithFirstPblock { invoke_id, descriptor, block })
            },
            5 => {
                let invoke_id = InvokeId::read(r)?;
                let descriptors = read_list(r)?;
                let block = DataBlockSA::decode(r)?;
                Ok(ActionRequest::WithListAndFirstPblock { invoke_id, descriptors, block })
            },
            6 => {
                let invoke_id = InvokeId::read(r)?;
                let block = DataBlockSA::decode(r)?;
                Ok(ActionRequest::WithPblock { invoke_id, block })
            },
            _ => Err(r.err_back(ErrorKind::InvalidTag(tag), 1)),
        }
    }
}

/// The answer to an invocation.
#[verifier::ext_equal]
pub enum ActionResponseV {
    /// Of one method.
    Normal {
        /// Which invocation.
        invoke_id: InvokeId,
        /// What it came to.
        response: ActionResponseWithOptionalDataV,
    },
    /// One block of a long answer.
    WithPblock {
        /// Which invocation.
        invoke_id: InvokeId,
        /// The block.
        block: DataBlockSAV,
    },
    /// Of several methods.
    WithList {
        /// Which invocation.
        invoke_id: InvokeId,
        /// What each came to.
        responses: Seq<ActionResponseWithOptionalDataV>,
    },
    /// A block has been taken.
    NextPblock {
        /// Which invocation.
        invoke_id: InvokeId,
        /// The number of the block.
        block_number: u32,
    },
}

/// The answer to an invocation.
#[derive(Debug, Clone, PartialEq)]
pub enum ActionResponse<'a> {
    /// Of one method.
    Normal {
        /// Which invocation.
        invoke_id: InvokeId,
        /// What it came to.
        response: ActionResponseWithOptionalData<'a>,
    },
    /// One block of a long answer.
    WithPblock {
        /// Which invocation.
        invoke_id: InvokeId,
        /// The block.
        block: DataBlockSA<'a>,
    },
    /// Of several methods.
    WithList {
        /// Which invocation.
        invoke_id: InvokeId,
        /// What each came to.
        responses: Vec<ActionResponseWithOptionalData<'a>>,
    },
    /// A block has been taken.
    NextPblock {
        /// Which invocation.
        invoke_id: InvokeId,
        /// The number of the block.
        block_number: u32,
    },
}

impl<'a> View for ActionResponse<'a> {
    type V = ActionResponseV;

    open spec fn view(&self) -> ActionResponseV {
        match *self {
            ActionResponse::Normal { invoke_id, response } => ActionResponseV::Normal {
                invoke_id: invoke_id,
                response: response@,
            },
            ActionResponse::WithPblock { invoke_id, block } => ActionResponseV::WithPblock {
                invoke_id: invoke_id,
                block: block@,
            },
            ActionResponse::WithList { invoke_id, responses } => ActionResponseV::WithList {
                invoke_id: invoke_id,
                responses: views(responses@),
            },
            ActionResponse::NextPblock { invoke_id, block_number } => ActionResponseV::NextPblock {
                invoke_id: invoke_id,
                block_number: block_number,
            },
        }
    }
}

impl ActionResponseV {
    /// The encoding.
    #[verifier::opaque]
    pub open spec fn enc(self) -> Seq<u8> {
        match self {
            ActionResponseV::Normal { invoke_id, response } => seq![1u8]
                + invoke_id.enc()
                + response.enc(),
            ActionResponseV::WithPblock { invoke_id, block } => seq![2u8]
                + invoke_id.enc()
                + block.enc(),
            ActionResponseV::WithList { invoke_id, responses } => seq![3u8]
                + invoke_id.enc()
                + enc_list::<ActionResponseWithOptionalData<'static>>(responses),
            ActionResponseV::NextPblock { invoke_id, block_number } => seq![4u8]
                + invoke_id.enc()
                + be_bytes(block_number as nat, 4),
        }
    }

    /// Whether there is one.
    pub open spec fn fits(self) -> bool {
        match self {
            ActionResponseV::Normal { response, .. } => response.fits(),
            ActionResponseV::WithPblock { block, .. } => block.fits(),
            ActionResponseV::WithList { responses, .. } => fits_list::<ActionResponseWithOptionalData<'static>>(
                responses,
            ),
            ActionResponseV::NextPblock { .. } => true,
        }
    }

    /// What stands at a cursor.
    #[verifier::opaque]
    pub open spec fn p(c: Cursor) -> Result<(ActionResponseV, Cursor)> {
        match p_u8(c) {
            Err(e) => Err(e),
            Ok((tag, c0)) => if tag == 1 {
                match InvokeId::p(c0) {
                    Err(e) => Err(e),
                    Ok((invoke_id, c1)) => match ActionResponseWithOptionalDataV::p(c1) {
                        Err(e) => Err(e),
                        Ok((response, c2)) => Ok(
                            (
                                ActionResponseV::Normal { invoke_id, response },
                                c2,
                            ),
                        ),
                    },
                }
            } else if tag == 2 {
                match InvokeId::p(c0) {
                    Err(e) => Err(e),
                    Ok((invoke_id, c1)) => match DataBlockSAV::p(c1) {
                        Err(e) => Err(e),
                        Ok((block, c2)) => Ok(
                            (
                                ActionResponseV::WithPblock { invoke_id, block },
                                c2,
                            ),
                        ),
                    },
                }
            } else if tag == 3 {
                match InvokeId::p(c0) {
                    Err(e) => Err(e),
                    Ok((invoke_id, c1)) => match p_list::<ActionResponseWithOptionalData<'static>>(c1) {
                        Err(e) => Err(e),
                        Ok((responses, c2)) => Ok(
                            (
                                ActionResponseV::WithList { invoke_id, responses },
                                c2,
                            ),
                        ),
                    },
                }
            } else if tag == 4 {
                match InvokeId::p(c0) {
                    Err(e) => Err(e),
                    Ok((invoke_id, c1)) => match p_u32(c1) {
                        Err(e) => Err(e),
                        Ok((block_number, c2)) => Ok(
                            (
                                ActionResponseV::NextPblock { invoke_id, block_number },
                                c2,
                            ),
                        ),
                    },
                }
            } else {
                Err(err_before(ErrorKind::InvalidTag(tag), c0.at(), 1))
            },
        }
    }
}

impl<'a> Encode for ActionResponse<'a> {
    open spec fn enc(&self) -> Seq<u8> {
        self@.enc()
    }

    open spec fn encodable(&self) -> bool {
        self@.fits()
    }

    fn encode<W: Writer>(&self, w: &mut W) -> (r: Result<()>) {
        proof {
            reveal(ActionResponseV::enc);
            assert(self.enc() == self@.enc() && self.encodable() == self@.fits());
        }
        let ghost w0 = w.sink().bytes;
        match self {
            ActionResponse::Normal { invoke_id, response } => {
                write_choice(w, 1, *invoke_id)?;
                response.encode(w)?;
            },
            ActionResponse::WithPblock { invoke_id, block } => {
                write_choice(w, 2, *invoke_id)?;
                block.encode(w)?;
            },
            ActionResponse::WithList { invoke_id, responses } => {
                write_choice(w, 3, *invoke_id)?;
                write_list(w, responses)?;
            },
            ActionResponse::NextPblock { invoke_id, block_number } => {
                write_choice(w, 4, *invoke_id)?;
                w.write_u32(*block_number)?;
            },
        }
        assert(w.sink().bytes =~= w0 + self@.enc());
        Ok(())
    }
}

impl<'a> Decode<'a> for ActionResponse<'a> {
    open spec fn parse(c: Cursor) -> Result<(ActionResponseV, Cursor)> {
        ActionResponseV::p(c)
    }

    fn decode(r: &mut Reader<'a>) -> (res: Result<Self>) {
        proof {
            reveal(ActionResponseV::p);
            assert(Self::parse(r@) == ActionResponseV::p(r@));
        }
        let tag = r.u8()?;
        match tag {
            1 => {
                let invoke_id = InvokeId::read(r)?;
                let response = ActionResponseWithOptionalData::decode(r)?;
                Ok(ActionResponse::Normal { invoke_id, response })
            },
            2 => {
                let invoke_id = InvokeId::read(r)?;
                let block = DataBlockSA::decode(r)?;
                Ok(ActionResponse::WithPblock { invoke_id, block })
            },
            3 => {
                let invoke_id = InvokeId::read(r)?;
                let responses = read_list(r)?;
                Ok(ActionResponse::WithList { invoke_id, responses })
            },
            4 => {
                let invoke_id = InvokeId::read(r)?;
                let block_number = read_u32(r)?;
                Ok(ActionResponse::NextPblock { invoke_id, block_number })
            },
            _ => Err(r.err_back(ErrorKind::InvalidTag(tag), 1)),
        }
    }
}

/// One operation of an access request.
#[verifier::ext_equal]
pub enum AccessRequestSpecificationV {
    /// Read.
    Get(AttributeDescriptorV),
    /// Write.
    Write(AttributeDescriptorV),
    /// Invoke.
    Action(MethodDescriptorV),
    /// Read a part.
    GetWithSelection(AttributeDescriptorWithSelectionV),
    /// Write a part.
    WriteWithSelection(AttributeDescriptorWithSelectionV),
}

/// One operation of an access request.
#[derive(Debug, Clone, Copy, PartialEq)]
pub enum AccessRequestSpecification<'a> {
    /// Read.
    Get(AttributeDescriptor),
    /// Write.
    Write(AttributeDescriptor),
    /// Invoke.
    Action(MethodDescriptor),
    /// Read a part.
    GetWithSelection(AttributeDescriptorWithSelection<'a>),
    /// Write a part.
    WriteWithSelection(AttributeDescriptorWithSelection<'a>),
}

impl<'a> View for AccessRequestSpecification<'a> {
    type V = AccessRequestSpecificationV;

    open spec fn view(&self) -> AccessRequestSpecificationV {
        match *self {
            AccessRequestSpecification::Get(v) => AccessRequestSpecificationV::Get(v@),
            AccessRequestSpecification::Write(v) => AccessRequestSpecificationV::Write(v@),
            AccessRequestSpecification::Action(v) => AccessRequestSpecificationV::Action(v@),
            AccessRequestSpecification::GetWithSelection(v) => AccessRequestSpecificationV::GetWithSelection(v@),
            AccessRequestSpecification::WriteWithSelection(v) => AccessRequestSpecificationV::WriteWithSelection(v@),
        }
    }
}

impl AccessRequestSpecificationV {
    /// The encoding.
    #[verifier::opaque]
    pub open spec fn enc(self) -> Seq<u8> {
        match self {
            AccessRequestSpecificationV::Get(v) => seq![1u8] + v.enc(),
            AccessRequestSpecificationV::Write(v) => seq![2u8] + v.enc(),
            AccessRequestSpecificationV::Action(v) => seq![3u8] + v.enc(),
            AccessRequestSpecificationV::GetWithSelection(v) => seq![4u8] + v.enc(),
            AccessRequestSpecificationV::WriteWithSelection(v) => seq![5u8] + v.enc(),
        }
    }

    /// Whether there is one.
    pub open spec fn fits(self) -> bool {
        match self {
            AccessRequestSpecificationV::Get(v) => v.fits(),
            AccessRequestSpecificationV::Write(v) => v.fits(),
            AccessRequestSpecificationV::Action(v) => v.fits(),
            AccessRequestSpecificationV::GetWithSelection(v) => v.fits(),
            AccessRequestSpecificationV::WriteWithSelection(v) => v.fits(),
        }
    }

    /// What stands at a cursor.
    #[verifier::opaque]
    pub open spec fn p(c: Cursor) -> Result<(AccessRequestSpecificationV, Cursor)> {
        match p_u8(c) {
            Err(e) => Err(e),
            Ok((tag, c0)) => if tag == 1 {
                match AttributeDescriptorV::p(c0) {
                    Err(e) => Err(e),
                    Ok((v, c1)) => Ok((AccessRequestSpecificationV::Get(v), c1)),
                }
            } else if tag == 2 {
                match AttributeDescriptorV::p(c0) {
                    Err(e) => Err(e),
                    Ok((v, c1)) => Ok((AccessRequestSpecificationV::Write(v), c1)),
                }
            } else if tag == 3 {
                match MethodDescriptorV::p(c0) {
                    Err(e) => Err(e),
                    Ok((v, c1)) => Ok((AccessRequestSpecificationV::Action(v), c1)),
                }
            } else if tag == 4 {
                match AttributeDescriptorWithSelectionV::p(c0) {
                    Err(e) => Err(e),
                    Ok((v, c1)) => Ok((AccessRequestSpecificationV::GetWithSelection(v), c1)),
                }
            } else if tag == 5 {
                match AttributeDescriptorWithSelectionV::p(c0) {
                    Err(e) => Err(e),
                    Ok((v, c1)) => Ok((AccessRequestSpecificationV::WriteWithSelection(v), c1)),
                }
            } else {
                Err(err_before(ErrorKind::InvalidTag(tag), c0.at(), 1))
            },
        }
    }
}

impl<'a> Encode for AccessRequestSpecification<'a> {
    open spec fn enc(&self) -> Seq<u8> {
        self@.enc()
    }

    open spec fn encodable(&self) -> bool {
        self@.fits()
    }

    fn encode<W: Writer>(&self, w: &mut W) -> (r: Result<()>) {
        proof {
            reveal(AccessRequestSpecificationV::enc);
            assert(self.enc() == self@.enc() && self.encodable() == self@.fits());
        }
        let ghost w0 = w.sink().bytes;
        match self {
            AccessRequestSpecification::Get(v) => {
                w.write_u8(1)?;
                v.encode(w)?;
            },
            AccessRequestSpecification::Write(v) => {
                w.write_u8(2)?;
                v.encode(w)?;
            },
            AccessRequestSpecification::Action(v) => {
                w.write_u8(3)?;
                v.encode(w)?;
            },
            AccessRequestSpecification::GetWithSelection(v) => {
                w.write_u8(4)?;
                v.encode(w)?;
            },
            AccessRequestSpecification::WriteWithSelection(v) => {
                w.write_u8(5)?;
                v.encode(w)?;
            },
        }
        assert(w.sink().bytes =~= w0 + self@.enc());
        Ok(())
    }
}

impl<'a> Decode<'a> for AccessRequestSpecification<'a> {
    open spec fn parse(c: Cursor) -> Result<(AccessRequestSpecificationV, Cursor)> {
        AccessRequestSpecificationV::p(c)
    }

    fn decode(r: &mut Reader<'a>) -> (res: Result<Self>) {
        proof {
            reveal(AccessRequestSpecificationV::p);
            assert(Self::parse(r@) == AccessRequestSpecificationV::p(r@));
        }
        let tag = r.u8()?;
        match tag {
            1 => {
                let v = AttributeDescriptor::decode(r)?;
                Ok(AccessRequestSpecification::Get(v))
            },
            2 => {
                let v = AttributeDescriptor::decode(r)?;
                Ok(AccessRequestSpecification::Write(v))
            },
            3 => {
                let v = MethodDescriptor::decode(r)?;
                Ok(AccessRequestSpecification::Action(v))
            },
            4 => {
                let v = AttributeDescriptorWithSelection::decode(r)?;
                Ok(AccessRequestSpecification::GetWithSelection(v))
            },
            5 => {
                let v = AttributeDescriptorWithSelection::decode(r)?;
                Ok(AccessRequestSpecification::WriteWithSelection(v))
            },
            _ => Err(r.err_back(ErrorKind::InvalidTag(tag), 1)),
        }
    }
}

impl<'a> Wire<'a> for AccessRequestSpecification<'a> {
    open spec fn enc_of(v: AccessRequestSpecificationV) -> Seq<u8> {
        v.enc()
    }

    open spec fn fits_of(v: AccessRequestSpecificationV) -> bool {
        v.fits()
    }

    proof fn lemma_enc(&self) {
    }
}

/// What one operation of an access request came to.
#[verifier::ext_equal]
pub enum AccessResponseSpecificationV {
    /// A read.
    Get(DataAccessResult),
    /// A write.
    Write(DataAccessResult),
    /// An invocation.
    Action(ActionResult),
}

/// What one operation of an access request came to.
#[derive(Debug, Clone, Copy, PartialEq, Eq)]
pub enum AccessResponseSpecification {
    /// A read.
    Get(DataAccessResult),
    /// A write.
    Write(DataAccessResult),
    /// An invocation.
    Action(ActionResult),
}

impl View for AccessResponseSpecification {
    type V = AccessResponseSpecificationV;

    open spec fn view(&self) -> AccessResponseSpecificationV {
        match *self {
            AccessResponseSpecification::Get(v) => AccessResponseSpecificationV::Get(v),
            AccessResponseSpecification::Write(v) => AccessResponseSpecificationV::Write(v),
            AccessResponseSpecification::Action(v) => AccessResponseSpecificationV::Action(v),
        }
    }
}

impl AccessResponseSpecificationV {
    /// The encoding.
    #[verifier::opaque]
    pub open spec fn enc(self) -> Seq<u8> {
        match self {
            AccessResponseSpecificationV::Get(v) => seq![1u8] + seq![v.as_u8()],
            AccessResponseSpecificationV::Write(v) => seq![2u8] + seq![v.as_u8()],
            AccessResponseSpecificationV::Action(v) => seq![3u8] + seq![v.as_u8()],
        }
    }

    /// Whether there is one.
    pub open spec fn fits(self) -> bool {
        match self {
            AccessResponseSpecificationV::Get(_) => true,
            AccessResponseSpecificationV::Write(_) => true,
            AccessResponseSpecificationV::Action(_) => true,
        }
    }

    /// What stands at a cursor.
    #[verifier::opaque]
    pub open spec fn p(c: Cursor) -> Result<(AccessResponseSpecificationV, Cursor)> {
        match p_u8(c) {
            Err(e) => Err(e),
            Ok((tag, c0)) => if tag == 1 {
                match DataAccessResult::p(c0) {
                    Err(e) => Err(e),
                    Ok((v, c1)) => Ok((AccessResponseSpecificationV::Get(v), c1)),
                }
            } else if tag == 2 {
                match DataAccessResult::p(c0) {
                    Err(e) => Err(e),
                    Ok((v, c1)) => Ok((AccessResponseSpecificationV::Write(v), c1)),
                }
            } else if tag == 3 {
                match ActionResult::p(c0) {
                    Err(e) => Err(e),
                    Ok((v, c1)) => Ok((AccessResponseSpecificationV::Action(v), c1)),
                }
            } else {
                Err(err_before(ErrorKind::InvalidTag(tag), c0.at(), 1))
            },
        }
    }
}

impl Encode for AccessResponseSpecification {
    open spec fn enc(&self) -> Seq<u8> {
        self@.enc()
    }

    open spec fn encodable(&self) -> bool {
        self@.fits()
    }

    fn encode<W: Writer>(&self, w: &mut W) -> (r: Result<()>) {
        proof {
            reveal(AccessResponseSpecificationV::enc);
            assert(self.enc() == self@.enc() && self.encodable() == self@.fits());
        }
        let ghost w0 = w.sink().bytes;
        match self {
            AccessResponseSpecification::Get(v) => {
                w.write_u8(1)?;
                w.write_u8((*v).as_u8())?;
            },
            AccessResponseSpecification::Write(v) => {
                w.write_u8(2)?;
                w.write_u8((*v).as_u8())?;
            },
            AccessResponseSpecification::Action(v) => {
                w.write_u8(3)?;
                w.write_u8((*v).as_u8())?;
            },
        }
        assert(w.sink().bytes =~= w0 + self@.enc());
        Ok(())
    }
}

impl<'a> Decode<'a> for AccessResponseSpecification {
    open spec fn parse(c: Cursor) -> Result<(AccessResponseSpecificationV, Cursor)> {
        AccessResponseSpecificationV::p(c)
    }

    fn decode(r: &mut Reader<'a>) -> (res: Result<Self>) {
        proof {
            reveal(AccessResponseSpecificationV::p);
            assert(Self::parse(r@) == AccessResponseSpecificationV::p(r@));
        }
        let tag = r.u8()?;
        match tag {
            1 => {
                let v = DataAccessResult::read(r)?;
                Ok(AccessResponseSpecification::Get(v))
            },
            2 => {
                let v = DataAccessResult::read(r)?;
                Ok(AccessResponseSpecification::Write(v))
            },
            3 => {
                let v = ActionResult::read(r)?;
                Ok(AccessResponseSpecification::Action(v))
            },
            _ => Err(r.err_back(ErrorKind::InvalidTag(tag), 1)),
        }
    }
}

impl<'a> Wire<'a> for AccessResponseSpecification {
    open spec fn enc_of(v: AccessResponseSpecificationV) -> Seq<u8> {
        v.enc()
    }

    open spec fn fits_of(v: AccessResponseSpecificationV) -> bool {
        v.fits()
    }

    proof fn lemma_enc(&self) {
    }
}

/// Reads, writes and invocations in one exchange.
#[verifier::ext_equal]
pub struct AccessRequestV {
    /// Which invocation.
    pub long_invoke_id: LongInvokeId,
    /// When.
    pub date_time: OptionalDateTime,
    /// The operations.
    pub specification: Seq<AccessRequestSpecificationV>,
    /// One value for each.
    pub data: Seq<DataV>,
}

/// Reads, writes and invocations in one exchange.
#[derive(Debug, Clone, PartialEq)]
pub struct AccessRequest<'a> {
    /// Which invocation.
    pub long_invoke_id: LongInvokeId,
    /// When.
    pub date_time: OptionalDateTime,
    /// The operations.
    pub specification: Vec<AccessRequestSpecification<'a>>,
    /// One value for each.
    pub data: Vec<Data<'a>>,
}

impl<'a> View for AccessRequest<'a> {
    type V = AccessRequestV;

    open spec fn view(&self) -> AccessRequestV {
        AccessRequestV {
            long_invoke_id: self.long_invoke_id,
            date_time: self.date_time,
            specification: views(self.specification@),
            data: views(self.data@),
        }
    }
}

impl AccessRequestV {
    /// The encoding.
    pub open spec fn enc(self) -> Seq<u8> {
        self.long_invoke_id.enc()
            + self.date_time.enc()
            + enc_list::<AccessRequestSpecification<'static>>(self.specification)
            + enc_list::<Data<'static>>(self.data)
    }

    /// Whether there is one.
    pub open spec fn fits(self) -> bool {
        fits_list::<AccessRequestSpecification<'static>>(self.specification)
            && fits_list::<Data<'static>>(self.data)
    }

    /// What stands at a cursor.
    #[verifier::opaque]
    pub open spec fn p(c: Cursor) -> Result<(AccessRequestV, Cursor)> {
        match LongInvokeId::p(c) {
            Err(e) => Err(e),
            Ok((long_invoke_id, c1)) => match OptionalDateTime::p(c1) {
                Err(e) => Err(e),
                Ok((date_time, c2)) => match p_list::<AccessRequestSpecification<'static>>(c2) {
                    Err(e) => Err(e),
                    Ok((specification, c3)) => match p_list::<Data<'static>>(c3) {
                        Err(e) => Err(e),
                        Ok((data, c4)) => Ok(
                            (
                                AccessRequestV { long_invoke_id, date_time, specification, data },
                                c4,
                            ),
                        ),
                    },
                },
            },
        }
    }
}

impl<'a> Encode for AccessRequest<'a> {
    open spec fn enc(&self) -> Seq<u8> {
        self@.enc()
    }

    open spec fn encodable(&self) -> bool {
        self@.fits()
    }

    fn encode<W: Writer>(&self, w: &mut W) -> (r: Result<()>) {
        let ghost w0 = w.sink().bytes;
        assert(self.enc() == self@.enc() && self.encodable() == self@.fits());
        self.long_invoke_id.write(w)?;
        self.date_time.write(w)?;
        write_list(w, &self.specification)?;
        write_list(w, &self.data)?;
        assert(w.sink().bytes =~= w0 + self@.enc());
        Ok(())
    }
}

impl<'a> Decode<'a> for AccessRequest<'a> {
    open spec fn parse(c: Cursor) -> Result<(AccessRequestV, Cursor)> {
        AccessRequestV::p(c)
    }

    fn decode(r: &mut Reader<'a>) -> (res: Result<Self>) {
        proof {
            reveal(AccessRequestV::p);
            assert(Self::parse(r@) == AccessRequestV::p(r@));
        }
        let long_invoke_id = LongInvokeId::read(r)?;
        let date_time = OptionalDateTime::read(r)?;
        let specification = read_list(r)?;
        let data = read_list(r)?;
        Ok(AccessRequest { long_invoke_id, date_time, specification, data })
    }
}

/// What a short-name service speaks of.
#[verifier::ext_equal]
pub enum VariableAccessV {
    /// A short name.
    VariableName(u16),
    /// A short name with a parameter.
    Parameterized {
        /// The short name.
        name: u16,
        /// How the part is named.
        selector: u8,
        /// The name of the part, or the parameter of a method.
        parameter: DataV,
    },
    /// The next block of a long read.
    BlockNumber(u16),
    /// A block of a long read request.
    ReadDataBlock {
        /// True when no further block follows.
        last_block: bool,
        /// The number of the block.
        block_number: u16,
        /// The fragment.
        raw_data: Seq<u8>,
    },
    /// A block of a long write.
    WriteDataBlock {
        /// True when no further block follows.
        last_block: bool,
        /// The number of the block.
        block_number: u16,
    },
}

/// What a short-name service speaks of.
#[derive(Debug, Clone, Copy, PartialEq)]
pub enum VariableAccess<'a> {
    /// A short name.
    VariableName(u16),
    /// A short name with a parameter.
    Parameterized {
        /// The short name.
        name: u16,
        /// How the part is named.
        selector: u8,
        /// The name of the part, or the parameter of a method.
        parameter: Data<'a>,
    },
    /// The next block of a long read.
    BlockNumber(u16),
    /// A block of a long read request.
    ReadDataBlock {
        /// True when no further block follows.
        last_block: bool,
        /// The number of the block.
        block_number: u16,
        /// The fragment.
        raw_data: &'a [u8],
    },
    /// A block of a long write.
    WriteDataBlock {
        /// True when no further block follows.
        last_block: bool,
        /// The number of the block.
        block_number: u16,
    },
}

impl<'a> View for VariableAccess<'a> {
    type V = VariableAccessV;

    open spec fn view(&self) -> VariableAccessV {
        match *self {
            VariableAccess::VariableName(v) => VariableAccessV::VariableName(v),
            VariableAccess::Parameterized { name, selector, parameter } => VariableAccessV::Parameterized {
                name: name,
                selector: selector,
                parameter: parameter@,
            },
            VariableAccess::BlockNumber(v) => VariableAccessV::BlockNumber(v),
            VariableAccess::ReadDataBlock { last_block, block_number, raw_data } => VariableAccessV::ReadDataBlock {
                last_block: last_block,
                block_number: block_number,
                raw_data: raw_data@,
            },
            VariableAccess::WriteDataBlock { last_block, block_number } => VariableAccessV::WriteDataBlock {
                last_block: last_block,
                block_number: block_number,
            },
        }
    }
}

impl VariableAccessV {
    /// The encoding.
    #[verifier::opaque]
    pub open spec fn enc(self) -> Seq<u8> {
        match self {
            VariableAccessV::VariableName(v) => seq![2u8] + be_bytes(v as nat, 2),
            VariableAccessV::Parameterized { name, selector, parameter } => seq![4u8]
                + be_bytes(name as nat, 2)
                + seq![selector]
                + parameter.enc(),
            VariableAccessV::BlockNumber(v) => seq![5u8] + be_bytes(v as nat, 2),
            VariableAccessV::ReadDataBlock { last_block, block_number, raw_data } => seq![6u8]
                + enc_flag(last_block)
                + be_bytes(block_number as nat, 2)
                + enc_prefixed(raw_data),
            VariableAccessV::WriteDataBlock { last_block, block_number } => seq![7u8]
                + enc_flag(last_block)
                + be_bytes(block_number as nat, 2),
        }
    }

    /// Whether there is one.
    pub open spec fn fits(self) -> bool {
        match self {
            VariableAccessV::VariableName(_) => true,
            VariableAccessV::Parameterized { parameter, .. } => parameter.encodable(),
            VariableAccessV::BlockNumber(_) => true,
            VariableAccessV::ReadDataBlock { raw_data, .. } => length_fits(raw_data.len()),
            VariableAccessV::WriteDataBlock { .. } => true,
        }
    }

    /// What stands at a cursor.
    #[verifier::opaque]
    pub open spec fn p(c: Cursor) -> Result<(VariableAccessV, Cursor)> {
        match p_u8(c) {
            Err(e) => Err(e),
            Ok((tag, c0)) => if tag == 2 {
                match p_u16(c0) {
                    Err(e) => Err(e),
                    Ok((v, c1)) => Ok((VariableAccessV::VariableName(v), c1)),
                }
            } else if tag == 4 {
                match p_u16(c0) {
                    Err(e) => Err(e),
                    Ok((name, c1)) => match p_u8(c1) {
                        Err(e) => Err(e),
                        Ok((selector, c2)) => match p_data(c2, 0) {
                            Err(e) => Err(e),
                            Ok((parameter, c3)) => Ok(
                                (
                                    VariableAccessV::Parameterized { name, selector, parameter },
                                    c3,
                                ),
                            ),
                        },
                    },
                }
            } else if tag == 5 {
                match p_u16(c0) {
                    Err(e) => Err(e),
                    Ok((v, c1)) => Ok((VariableAccessV::BlockNumber(v), c1)),
                }
            } else if tag == 6 {
                match p_flag(c0) {
                    Err(e) => Err(e),
                    Ok((last_block, c1)) => match p_u16(c1) {
                        Err(e) => Err(e),
                        Ok((block_number, c2)) => match p_length_prefixed(c2) {
                            Err(e) => Err(e),
                            Ok((raw_data, c3)) => Ok(
                                (
                                    VariableAccessV::ReadDataBlock {
                                        last_block,
                                        block_number,
                                        raw_data,
                                    },
                                    c3,
                                ),
                            ),
                        },
                    },
                }
            } else if tag == 7 {
                match p_flag(c0) {
                    Err(e) => Err(e),
                    Ok((last_block, c1)) => match p_u16(c1) {
                        Err(e) => Err(e),
                        Ok((block_number, c2)) => Ok(
                            (
                                VariableAccessV::WriteDataBlock { last_block, block_number },
                                c2,
                            ),
                        ),
                    },
                }
            } else {
                Err(err_before(ErrorKind::InvalidTag(tag), c0.at(), 1))
            },
        }
    }
}

impl<'a> Encode for VariableAccess<'a> {
    open spec fn enc(&self) -> Seq<u8> {
        self@.enc()
    }

    open spec fn encodable(&self) -> bool {
        self@.fits()
    }

    #[verifier::rlimit(60)]
    fn encode<W: Writer>(&self, w: &mut W) -> (r: Result<()>) {
        proof {
            reveal(VariableAccessV::enc);
            assert(self.enc() == self@.enc() && self.encodable() == self@.fits());
        }
        let ghost w0 = w.sink().bytes;
        match self {
            VariableAccess::VariableName(v) => {
                w.write_u8(2)?;
                w.write_u16(*v)?;
            },
            VariableAccess::Parameterized { name, selector, parameter } => {
                w.write_u8(4)?;
                w.write_u16(*name)?;
                w.write_u8(*selector)?;
                parameter.encode(w)?;
            },
            VariableAccess::BlockNumber(v) => {
                w.write_u8(5)?;
                w.write_u16(*v)?;
            },
            VariableAccess::ReadDataBlock { last_block, block_number, raw_data } => {
                w.write_u8(6)?;
                write_flag(w, *last_block)?;
                w.write_u16(*block_number)?;
                w.write_length_prefixed(*raw_data)?;
            },
            VariableAccess::WriteDataBlock { last_block, block_number } => {
                w.write_u8(7)?;
                write_flag(w, *last_block)?;
                w.write_u16(*block_number)?;
            },
        }
        assert(w.sink().bytes =~= w0 + self@.enc());
        Ok(())
    }
}

impl<'a> Decode<'a> for VariableAccess<'a> {
    open spec fn parse(c: Cursor) -> Result<(VariableAccessV, Cursor)> {
        VariableAccessV::p(c)
    }

    fn decode(r: &mut Reader<'a>) -> (res: Result<Self>) {
        proof {
            reveal(VariableAccessV::p);
            assert(Self::parse(r@) == VariableAccessV::p(r@));
        }
        let tag = r.u8()?;
        match tag {
            2 => {
                let v = read_u16(r)?;
                Ok(VariableAccess::VariableName(v))
            },
            4 => {
                let name = read_u16(r)?;
                let selector = r.u8()?;
                let parameter = Data::decode(r)?;
                Ok(VariableAccess::Parameterized { name, selector, parameter })
            },
            5 => {
                let v = read_u16(r)?;
                Ok(VariableAccess::BlockNumber(v))
            },
            6 => {
                let last_block = read_flag(r)?;
                let block_number = read_u16(r)?;
                let raw_data = r.length_prefixed()?;
                Ok(VariableAccess::ReadDataBlock { last_block, block_number, raw_data })
            },
            7 => {
                let last_block = read_flag(r)?;
                let block_number = read_u16(r)?;
                Ok(VariableAccess::WriteDataBlock { last_block, block_number })
            },
            _ => Err(r.err_back(ErrorKind::InvalidTag(tag), 1)),
        }
    }
}

impl<'a> Wire<'a> for VariableAccess<'a> {
    open spec fn enc_of(v: VariableAccessV) -> Seq<u8> {
        v.enc()
    }

    open spec fn fits_of(v: VariableAccessV) -> bool {
        v.fits()
    }

    proof fn lemma_enc(&self) {
    }
}

/// The answer to one entry of a short-name read.
#[verifier::ext_equal]
pub enum ReadResultV {
    /// The value.
    Data(DataV),
    /// Why there is none.
    Error(DataAccessResult),
    /// One block of it.
    Block {
        /// True when no further block follows.
        last_block: bool,
        /// The number of the block.
        block_number: u16,
        /// The fragment.
        raw_data: Seq<u8>,
    },
    /// A block of the request has been taken.
    BlockNumber(u16),
}

/// The answer to one entry of a short-name read.
#[derive(Debug, Clone, Copy, PartialEq)]
pub enum ReadResult<'a> {
    /// The value.
    Data(Data<'a>),
    /// Why there is none.
    Error(DataAccessResult),
    /// One block of it.
    Block {
        /// True when no further block follows.
        last_block: bool,
        /// The number of the block.
        block_number: u16,
        /// The fragment.
        raw_data: &'a [u8],
    },
    /// A block of the request has been taken.
    BlockNumber(u16),
}

impl<'a> View for ReadResult<'a> {
    type V = ReadResultV;

    open spec fn view(&self) -> ReadResultV {
        match *self {
            ReadResult::Data(v) => ReadResultV::Data(v@),
            ReadResult::Error(v) => ReadResultV::Error(v),
            ReadResult::Block { last_block, block_number, raw_data } => ReadResultV::Block {
                last_block: last_block,
                block_number: block_number,
                raw_data: raw_data@,
            },
            ReadResult::BlockNumber(v) => ReadResultV::BlockNumber(v),
        }
    }
}

impl ReadResultV {
    /// The encoding.
    #[verifier::opaque]
    pub open spec fn enc(self) -> Seq<u8> {
        match self {
            ReadResultV::Data(v) => seq![0u8] + v.enc(),
            ReadResultV::Error(v) => seq![1u8] + seq![v.as_u8()],
            ReadResultV::Block { last_block, block_number, raw_data } => seq![2u8]
                + enc_flag(last_block)
                + be_bytes(block_number as nat, 2)
                + enc_prefixed(raw_data),
            ReadResultV::BlockNumber(v) => seq![3u8] + be_bytes(v as nat, 2),
        }
    }

    /// Whether there is one.
    pub open spec fn fits(self) -> bool {
        match self {
            ReadResultV::Data(v) => v.encodable(),
            ReadResultV::Error(_) => true,
            ReadResultV::Block { raw_data, .. } => length_fits(raw_data.len()),
            ReadResultV::BlockNumber(_) => true,
        }
    }

    /// What stands at a cursor.
    #[verifier::opaque]
    pub open spec fn p(c: Cursor) -> Result<(ReadResultV, Cursor)> {
        match p_u8(c) {
            Err(e) => Err(e),
            Ok((tag, c0)) => if tag == 0 {
                match p_data(c0, 0) {
                    Err(e) => Err(e),
                    Ok((v, c1)) => Ok((ReadResultV::Data(v), c1)),
                }
            } else if tag == 1 {
                match DataAccessResult::p(c0) {
                    Err(e) => Err(e),
                    Ok((v, c1)) => Ok((ReadResultV::Error(v), c1)),
                }
            } else if tag == 2 {
                match p_flag(c0) {
                    Err(e) => Err(e),
                    Ok((last_block, c1)) => match p_u16(c1) {
                        Err(e) => Err(e),
                        Ok((block_number, c2)) => match p_length_prefixed(c2) {
                            Err(e) => Err(e),
                            Ok((raw_data, c3)) => Ok(
                                (
                                    ReadResultV::Block { last_block, block_number, raw_data },
                                    c3,
                                ),
                            ),
                        },
                    },
                }
            } else if tag == 3 {
                match p_u16(c0) {
                    Err(e) => Err(e),
                    Ok((v, c1)) => Ok((ReadResultV::BlockNumber(v), c1)),
                }
            } else {
                Err(err_before(ErrorKind::InvalidTag(tag), c0.at(), 1))
            },
        }
    }
}

impl<'a> Encode for ReadResult<'a> {
    open spec fn enc(&self) -> Seq<u8> {
        self@.enc()
    }

    open spec fn encodable(&self) -> bool {
        self@.fits()
    }

    #[verifier::rlimit(60)]
    fn encode<W: Writer>(&self, w: &mut W) -> (r: Result<()>) {
        proof {
            reveal(ReadResultV::enc);
            assert(self.enc() == self@.enc() && self.encodable() == self@.fits());
        }
        let ghost w0 = w.sink().bytes;
        match self {
            ReadResult::Data(v) => {
                w.write_u8(0)?;
                v.encode(w)?;
            },
            ReadResult::Error(v) => {
                w.write_u8(1)?;
                w.write_u8((*v).as_u8())?;
            },
            ReadResult::Block { last_block, block_number, raw_data } => {
                w.write_u8(2)?;
                write_flag(w, *last_block)?;
                w.write_u16(*block_number)?;
                w.write_length_prefixed(*raw_data)?;
            },
            ReadResult::BlockNumber(v) => {
                w.write_u8(3)?;
                w.write_u16(*v)?;
            },
        }
        assert(w.sink().bytes =~= w0 + self@.enc());
        Ok(())
    }
}

impl<'a> Decode<'a> for ReadResult<'a> {
    open spec fn parse(c: Cursor) -> Result<(ReadResultV, Cursor)> {
        ReadResultV::p(c)
    }

    fn decode(r: &mut Reader<'a>) -> (res: Result<Self>) {
        proof {
            reveal(ReadResultV::p);
            assert(Self::parse(r@) == ReadResultV::p(r@));
        }
        let tag = r.u8()?;
        match tag {
            0 => {
                let v = Data::decode(r)?;
                Ok(ReadResult::Data(v))
            },
            1 => {
                let v = DataAccessResult::read(r)?;
                Ok(ReadResult::Error(v))
            },
            2 => {
                let last_block = read_flag(r)?;
                let block_number = read_u16(r)?;
                let raw_data = r.length_prefixed()?;
                Ok(ReadResult::Block { last_block, block_number, raw_data })
            },
            3 => {
                let v = read_u16(r)?;
                Ok(ReadResult::BlockNumber(v))
            },
            _ => Err(r.err_back(ErrorKind::InvalidTag(tag), 1)),
        }
    }
}

impl<'a> Wire<'a> for ReadResult<'a> {
    open spec fn enc_of(v: ReadResultV) -> Seq<u8> {
        v.enc()
    }

    open spec fn fits_of(v: ReadResultV) -> bool {
        v.fits()
    }

    proof fn lemma_enc(&self) {
    }
}

/// The answer to one entry of a short-name write.
#[verifier::ext_equal]
pub enum WriteResultV {
    /// It was written.
    Success,
    /// Why it was not.
    Error(DataAccessResult),
    /// A block has been taken.
    BlockNumber(u16),
}

/// The answer to one entry of a short-name write.
#[derive(Debug, Clone, Copy, PartialEq, Eq)]
pub enum WriteResult {
    /// It was written.
    Success,
    /// Why it was not.
    Error(DataAccessResult),
    /// A block has been taken.
    BlockNumber(u16),
}

impl View for WriteResult {
    type V = WriteResultV;

    open spec fn view(&self) -> WriteResultV {
        match *self {
            WriteResult::Success => WriteResultV::Success,
            WriteResult::Error(v) => WriteResultV::Error(v),
            WriteResult::BlockNumber(v) => WriteResultV::BlockNumber(v),
        }
    }
}

impl WriteResultV {
    /// The encoding.
    #[verifier::opaque]
    pub open spec fn enc(self) -> Seq<u8> {
        match self {
            WriteResultV::Success => seq![0u8],
            WriteResultV::Error(v) => seq![1u8] + seq![v.as_u8()],
            WriteResultV::BlockNumber(v) => seq![2u8] + be_bytes(v as nat, 2),
        }
    }

    /// Whether there is one.
    pub open spec fn fits(self) -> bool {
        match self {
            WriteResultV::Success => true,
            WriteResultV::Error(_) => true,
            WriteResultV::BlockNumber(_) => true,
        }
    }

    /// What stands at a cursor.
    #[verifier::opaque]
    pub open spec fn p(c: Cursor) -> Result<(WriteResultV, Cursor)> {
        match p_u8(c) {
            Err(e) => Err(e),
            Ok((tag, c0)) => if tag == 0 {
                Ok((WriteResultV::Success, c0))
            } else if tag == 1 {
                match DataAccessResult::p(c0) {
                    Err(e) => Err(e),
                    Ok((v, c1)) => Ok((WriteResultV::Error(v), c1)),
                }
            } else if tag == 2 {
                match p_u16(c0) {
                    Err(e) => Err(e),
                    Ok((v, c1)) => Ok((WriteResultV::BlockNumber(v), c1)),
                }
            } else {
                Err(err_before(ErrorKind::InvalidTag(tag), c0.at(), 1))
            },
        }
    }
}

impl Encode for WriteResult {
    open spec fn enc(&self) -> Seq<u8> {
        self@.enc()
    }

    open spec fn encodable(&self) -> bool {
        self@.fits()
    }

    fn encode<W: Writer>(&self, w: &mut W) -> (r: Result<()>) {
        proof {
            reveal(WriteResultV::enc);
            assert(self.enc() == self@.enc() && self.encodable() == self@.fits());
        }
        let ghost w0 = w.sink().bytes;
        match self {
            WriteResult::Success => {
                w.write_u8(0)?;
            },
            WriteResult::Error(v) => {
                w.write_u8(1)?;
                w.write_u8((*v).as_u8())?;
            },
            WriteResult::BlockNumber(v) => {
                w.write_u8(2)?;
                w.write_u16(*v)?;
            },
        }
        assert(w.sink().bytes =~= w0 + self@.enc());
        Ok(())
    }
}

impl<'a> Decode<'a> for WriteResult {
    open spec fn parse(c: Cursor) -> Result<(WriteResultV, Cursor)> {
        WriteResultV::p(c)
    }

    fn decode(r: &mut Reader<'a>) -> (res: Result<Self>) {
        proof {
            reveal(WriteResultV::p);
            assert(Self::parse(r@) == WriteResultV::p(r@));
        }
        let tag = r.u8()?;
        match tag {
            0 => {
                Ok(WriteResult::Success)
            },
            1 => {
                let v = DataAccessResult::read(r)?;
                Ok(WriteResult::Error(v))
            },
            2 => {
                let v = read_u16(r)?;
                Ok(WriteResult::BlockNumber(v))
            },
            _ => Err(r.err_back(ErrorKind::InvalidTag(tag), 1)),
        }
    }
}

impl<'a> Wire<'a> for WriteResult {
    open spec fn enc_of(v: WriteResultV) -> Seq<u8> {
        v.enc()
    }

    open spec fn fits_of(v: WriteResultV) -> bool {
        v.fits()
    }

    proof fn lemma_enc(&self) {
    }
}

/// A read by short name.
#[verifier::ext_equal]
pub struct ReadRequestV {
    /// What to read.
    pub specification: Seq<VariableAccessV>,
}

/// A read by short name.
#[derive(Debug, Clone, PartialEq)]
pub struct ReadRequest<'a> {
    /// What to read.
    pub specification: Vec<VariableAccess<'a>>,
}

impl<'a> View for ReadRequest<'a> {
    type V = ReadRequestV;

    open spec fn view(&self) -> ReadRequestV {
        ReadRequestV {
            specification: views(self.specification@),
        }
    }
}

impl ReadRequestV {
    /// The encoding.
    pub open spec fn enc(self) -> Seq<u8> {
        enc_list::<VariableAccess<'static>>(self.specification)
    }

    /// Whether there is one.
    pub open spec fn fits(self) -> bool {
        fits_list::<VariableAccess<'static>>(self.specification)
    }

    /// What stands at a cursor.
    #[verifier::opaque]
    pub open spec fn p(c: Cursor) -> Result<(ReadRequestV, Cursor)> {
        match p_list::<VariableAccess<'static>>(c) {
            Err(e) => Err(e),
            Ok((specification, c1)) => Ok((ReadRequestV { specification }, c1)),
        }
    }
}

impl<'a> Encode for ReadRequest<'a> {
    open spec fn enc(&self) -> Seq<u8> {
        self@.enc()
    }

    open spec fn encodable(&self) -> bool {
        self@.fits()
    }

    fn encode<W: Writer>(&self, w: &mut W) -> (r: Result<()>) {
        let ghost w0 = w.sink().bytes;
        assert(self.enc() == self@.enc() && self.encodable() == self@.fits());
        write_list(w, &self.specification)?;
        assert(w.sink().bytes =~= w0 + self@.enc());
        Ok(())
    }
}

impl<'a> Decode<'a> for ReadRequest<'a> {
    open spec fn parse(c: Cursor) -> Result<(ReadRequestV, Cursor)> {
        ReadRequestV::p(c)
    }

    fn decode(r: &mut Reader<'a>) -> (res: Result<Self>) {
        proof {
            reveal(ReadRequestV::p);
            assert(Self::parse(r@) == ReadRequestV::p(r@));
        }
        let specification = read_list(r)?;
        Ok(ReadRequest { specification })
    }
}

/// The answer to a read by short name.
#[verifier::ext_equal]
pub struct ReadResponseV {
    /// One answer for each entry.
    pub results: Seq<ReadResultV>,
}

/// The answer to a read by short name.
#[derive(Debug, Clone, PartialEq)]
pub struct ReadResponse<'a> {
    /// One answer for each entry.
    pub results: Vec<ReadResult<'a>>,
}

impl<'a> View for ReadResponse<'a> {
    type V = ReadResponseV;

    open spec fn view(&self) -> ReadResponseV {
        ReadResponseV {
            results: views(self.results@),
        }
    }
}

impl ReadResponseV {
    /// The encoding.
    pub open spec fn enc(self) -> Seq<u8> {
        enc_list::<ReadResult<'static>>(self.results)
    }

    /// Whether there is one.
    pub open spec fn fits(self) -> bool {
        fits_list::<ReadResult<'static>>(self.results)
    }

    /// What stands at a cursor.
    #[verifier::opaque]
    pub open spec fn p(c: Cursor) -> Result<(ReadResponseV, Cursor)> {
        match p_list::<ReadResult<'static>>(c) {
            Err(e) => Err(e),
            Ok((results, c1)) => Ok((ReadResponseV { results }, c1)),
        }
    }
}

impl<'a> Encode for ReadResponse<'a> {
    open spec fn enc(&self) -> Seq<u8> {
        self@.enc()
    }

    open spec fn encodable(&self) -> bool {
        self@.fits()
    }

    fn encode<W: Writer>(&self, w: &mut W) -> (r: Result<()>) {
        let ghost w0 = w.sink().bytes;
        assert(self.enc() == self@.enc() && self.encodable() == self@.fits());
        write_list(w, &self.results)?;
        assert(w.sink().bytes =~= w0 + self@.enc());
        Ok(())
    }
}

impl<'a> Decode<'a> for ReadResponse<'a> {
    open spec fn parse(c: Cursor) -> Result<(ReadResponseV, Cursor)> {
        ReadResponseV::p(c)
    }

    fn decode(r: &mut Reader<'a>) -> (res: Result<Self>) {
        proof {
            reveal(ReadResponseV::p);
            assert(Self::parse(r@) == ReadResponseV::p(r@));
        }
        let results = read_list(r)?;
        Ok(ReadResponse { results })
    }
}

/// A write by short name.
#[verifier::ext_equal]
pub struct WriteRequestV {
    /// What to write.
    pub specification: Seq<VariableAccessV>,
    /// The values.
    pub values: Seq<DataV>,
}

/// A write by short name.
#[derive(Debug, Clone, PartialEq)]
pub struct WriteRequest<'a> {
    /// What to write.
    pub specification: Vec<VariableAccess<'a>>,
    /// The values.
    pub values: Vec<Data<'a>>,
}

impl<'a> View for WriteRequest<'a> {
    type V = WriteRequestV;

    open spec fn view(&self) -> WriteRequestV {
        WriteRequestV {
            specification: views(self.specification@),
            values: views(self.values@),
        }
    }
}

impl WriteRequestV {
    /// The encoding.
    pub open spec fn enc(self) -> Seq<u8> {
        enc_list::<VariableAccess<'static>>(self.specification)
            + enc_list::<Data<'static>>(self.values)
    }

    /// Whether there is one.
    pub open spec fn fits(self) -> bool {
        fits_list::<VariableAccess<'static>>(self.specification)
            && fits_list::<Data<'static>>(self.values)
    }

    /// What stands at a cursor.
    #[verifier::opaque]
    pub open spec fn p(c: Cursor) -> Result<(WriteRequestV, Cursor)> {
        match p_list::<VariableAccess<'static>>(c) {
            Err(e) => Err(e),
            Ok((specification, c1)) => match p_list::<Data<'static>>(c1) {
                Err(e) => Err(e),
                Ok((values, c2)) => Ok((WriteRequestV { specification, values }, c2)),
            },
        }
    }
}

impl<'a> Encode for WriteRequest<'a> {
    open spec fn enc(&self) -> Seq<u8> {
        self@.enc()
    }

    open spec fn encodable(&self) -> bool {
        self@.fits()
    }

    fn encode<W: Writer>(&self, w: &mut W) -> (r: Result<()>) {
        let ghost w0 = w.sink().bytes;
        assert(self.enc() == self@.enc() && self.encodable() == self@.fits());
        write_list(w, &self.specification)?;
        write_list(w, &self.values)?;
        assert(w.sink().bytes =~= w0 + self@.enc());
        Ok(())
    }
}

impl<'a> Decode<'a> for WriteRequest<'a> {
    open spec fn parse(c: Cursor) -> Result<(WriteRequestV, Cursor)> {
        WriteRequestV::p(c)
    }

    fn decode(r: &mut Reader<'a>) -> (res: Result<Self>) {
        proof {
            reveal(WriteRequestV::p);
            assert(Self::parse(r@) == WriteRequestV::p(r@));
        }
        let specification = read_list(r)?;
        let values = read_list(r)?;
        Ok(WriteRequest { specification, values })
    }
}

/// A write by short name that is not answered.
#[verifier::ext_equal]
pub struct UnconfirmedWriteRequestV {
    /// What to write.
    pub specification: Seq<VariableAccessV>,
    /// The values.
    pub values: Seq<DataV>,
}

/// A write by short name that is not answered.
#[derive(Debug, Clone, PartialEq)]
pub struct UnconfirmedWriteRequest<'a> {
    /// What to write.
    pub specification: Vec<VariableAccess<'a>>,
    /// The values.
    pub values: Vec<Data<'a>>,
}

impl<'a> View for UnconfirmedWriteRequest<'a> {
    type V = UnconfirmedWriteRequestV;

    open spec fn view(&self) -> UnconfirmedWriteRequestV {
        UnconfirmedWriteRequestV {
            specification: views(self.specification@),
            values: views(self.values@),
        }
    }
}

impl UnconfirmedWriteRequestV {
    /// The encoding.
    pub open spec fn enc(self) -> Seq<u8> {
        enc_list::<VariableAccess<'static>>(self.specification)
            + enc_list::<Data<'static>>(self.values)
    }

    /// Whether there is one.
    pub open spec fn fits(self) -> bool {
        fits_list::<VariableAccess<'static>>(self.specification)
            && fits_list::<Data<'static>>(self.values)
    }

    /// What stands at a cursor.
    #[verifier::opaque]
    pub open spec fn p(c: Cursor) -> Result<(UnconfirmedWriteRequestV, Cursor)> {
        match p_list::<VariableAccess<'static>>(c) {
            Err(e) => Err(e),
            Ok((specification, c1)) => match p_list::<Data<'static>>(c1) {
                Err(e) => Err(e),
                Ok((values, c2)) => Ok((UnconfirmedWriteRequestV { specification, values }, c2)),
            },
        }
    }
}

impl<'a> Encode for UnconfirmedWriteRequest<'a> {
    open spec fn enc(&self) -> Seq<u8> {
        self@.enc()
    }

    open spec fn encodable(&self) -> bool {
        self@.fits()
    }

    fn encode<W: Writer>(&self, w: &mut W) -> (r: Result<()>) {
        let ghost w0 = w.sink().bytes;
        assert(self.enc() == self@.enc() && self.encodable() == self@.fits());
        write_list(w, &self.specification)?;
        write_list(w, &self.values)?;
        assert(w.sink().bytes =~= w0 + self@.enc());
        Ok(())
    }
}

impl<'a> Decode<'a> for UnconfirmedWriteRequest<'a> {
    open spec fn parse(c: Cursor) -> Result<(UnconfirmedWriteRequestV, Cursor)> {
        UnconfirmedWriteRequestV::p(c)
    }

    fn decode(r: &mut Reader<'a>) -> (res: Result<Self>) {
        proof {
            reveal(UnconfirmedWriteRequestV::p);
            assert(Self::parse(r@) == UnconfirmedWriteRequestV::p(r@));
        }
        let specification = read_list(r)?;
        let values = read_list(r)?;
        Ok(UnconfirmedWriteRequest { specification, values })
    }
}

/// The answer to a write by short name.
#[verifier::ext_equal]
pub struct WriteResponseV {
    /// One answer for each entry.
    pub results: Seq<WriteResultV>,
}

/// The answer to a write by short name.
#[derive(Debug, Clone, PartialEq)]
pub struct WriteResponse {
    /// One answer for each entry.
    pub results: Vec<WriteResult>,
}

impl View for WriteResponse {
    type V = WriteResponseV;

    open spec fn view(&self) -> WriteResponseV {
        WriteResponseV {
            results: views(self.results@),
        }
    }
}

impl WriteResponseV {
    /// The encoding.
    pub open spec fn enc(self) -> Seq<u8> {
        enc_list::<WriteResult>(self.results)
    }

    /// Whether there is one.
    pub open spec fn fits(self) -> bool {
        fits_list::<WriteResult>(self.results)
    }

    /// What stands at a cursor.
    #[verifier::opaque]
    pub open spec fn p(c: Cursor) -> Result<(WriteResponseV, Cursor)> {
        match p_list::<WriteResult>(c) {
            Err(e) => Err(e),
            Ok((results, c1)) => Ok((WriteResponseV { results }, c1)),
        }
    }
}

impl Encode for WriteResponse {
    open spec fn enc(&self) -> Seq<u8> {
        self@.enc()
    }

    open spec fn encodable(&self) -> bool {
        self@.fits()
    }

    fn encode<W: Writer>(&self, w: &mut W) -> (r: Result<()>) {
        let ghost w0 = w.sink().bytes;
        assert(self.enc() == self@.enc() && self.encodable() == self@.fits());
        write_list(w, &self.results)?;
        assert(w.sink().bytes =~= w0 + self@.enc());
        Ok(())
    }
}

impl<'a> Decode<'a> for WriteResponse {
    open spec fn parse(c: Cursor) -> Result<(WriteResponseV, Cursor)> {
        WriteResponseV::p(c)
    }

    fn decode(r: &mut Reader<'a>) -> (res: Result<Self>) {
        proof {
            reveal(WriteResponseV::p);
            assert(Self::parse(r@) == WriteResponseV::p(r@));
        }
        let results = read_list(r)?;
        Ok(WriteResponse { results })
    }
}

/// A value that a meter sends of its own accord.
#[verifier::ext_equal]
pub struct DataNotificationV {
    /// Which invocation.
    pub long_invoke_id: LongInvokeId,
    /// When.
    pub date_time: OptionalDateTime,
    /// The value.
    pub body: DataV,
}

/// A value that a meter sends of its own accord.
#[derive(Debug, Clone, Copy, PartialEq)]
pub struct DataNotification<'a> {
    /// Which invocation.
    pub long_invoke_id: LongInvokeId,
    /// When.
    pub date_time: OptionalDateTime,
    /// The value.
    pub body: Data<'a>,
}

impl<'a> View for DataNotification<'a> {
    type V = DataNotificationV;

    open spec fn view(&self) -> DataNotificationV {
        DataNotificationV {
            long_invoke_id: self.long_invoke_id,
            date_time: self.date_time,
            body: self.body@,
        }
    }
}

impl DataNotificationV {
    /// The encoding.
    pub open spec fn enc(self) -> Seq<u8> {
        self.long_invoke_id.enc() + self.date_time.enc() + self.body.enc()
    }

    /// Whether there is one.
    pub open spec fn fits(self) -> bool {
        self.body.encodable()
    }

    /// What stands at a cursor.
    #[verifier::opaque]
    pub open spec fn p(c: Cursor) -> Result<(DataNotificationV, Cursor)> {
        match LongInvokeId::p(c) {
            Err(e) => Err(e),
            Ok((long_invoke_id, c1)) => match OptionalDateTime::p(c1) {
                Err(e) => Err(e),
                Ok((date_time, c2)) => match p_data(c2, 0) {
                    Err(e) => Err(e),
                    Ok((body, c3)) => Ok(
                        (
                            DataNotificationV { long_invoke_id, date_time, body },
                            c3,
                        ),
                    ),
                },
            },
        }
    }
}

impl<'a> Encode for DataNotification<'a> {
    open spec fn enc(&self) -> Seq<u8> {
        self@.enc()
    }

    open spec fn encodable(&self) -> bool {
        self@.fits()
    }

    fn encode<W: Writer>(&self, w: &mut W) -> (r: Result<()>) {
        let ghost w0 = w.sink().bytes;
        assert(self.enc() == self@.enc() && self.encodable() == self@.fits());
        self.long_invoke_id.write(w)?;
        self.date_time.write(w)?;
        self.body.encode(w)?;
        assert(w.sink().bytes =~= w0 + self@.enc());
        Ok(())
    }
}

impl<'a> Decode<'a> for DataNotification<'a> {
    open spec fn parse(c: Cursor) -> Result<(DataNotificationV, Cursor)> {
        DataNotificationV::p(c)
    }

    fn decode(r: &mut Reader<'a>) -> (res: Result<Self>) {
        proof {
            reveal(DataNotificationV::p);
            assert(Self::parse(r@) == DataNotificationV::p(r@));
        }
        let long_invoke_id = LongInvokeId::read(r)?;
        let date_time = OptionalDateTime::read(r)?;
        let body = Data::decode(r)?;
        Ok(DataNotification { long_invoke_id, date_time, body })
    }
}

/// The operations of an access request, echoed or left out.
pub open spec fn p_echo(c: Cursor) -> Result<(Option<Seq<AccessRequestSpecificationV>>, Cursor)> {
    match p_u8(c) {
        Err(e) => Err(e),
        Ok((flag, d)) => if flag == 0 {
            Ok((None, d))
        } else if flag == 1 {
            match p_list::<AccessRequestSpecification<'static>>(d) {
                Ok((s, f)) => Ok((Some(s), f)),
                Err(e) => Err(e),
            }
        } else {
            Err(err_before(ErrorKind::InvalidValue, d.at(), 1))
        },
    }
}

fn read_echo<'a>(r: &mut Reader<'a>) -> (res: Result<Option<Vec<AccessRequestSpecification<'a>>>>)
    ensures
        final(r)@.same_input(old(r)@),
        match res {
            Ok(o) => p_echo(old(r)@) == Ok::<
                (Option<Seq<AccessRequestSpecificationV>>, Cursor),
                Error,
            >((echo_view(o), final(r)@)),
            Err(e) => p_echo(old(r)@) == Err::<
                (Option<Seq<AccessRequestSpecificationV>>, Cursor),
                Error,
            >(e),
        },
{
    let flag = r.u8()?;
    if flag == 0 {
        Ok(None)
    } else if flag == 1 {
        Ok(Some(read_list(r)?))
    } else {
        Err(r.err_back(ErrorKind::InvalidValue, 1))
    }
}

/// What the echoed operations are.
pub open spec fn echo_view(o: Option<Vec<AccessRequestSpecification<'_>>>) -> Option<
    Seq<AccessRequestSpecificationV>,
> {
    match o {
        Some(v) => Some(views(v@)),
        None => None,
    }
}

/// The encoding of the echoed operations.
pub open spec fn enc_echo(o: Option<Seq<AccessRequestSpecificationV>>) -> Seq<u8> {
    match o {
        Some(s) => seq![1u8] + enc_list::<AccessRequestSpecification<'static>>(s),
        None => seq![0u8],
    }
}

/// Whether there is one.
pub open spec fn fits_echo(o: Option<Seq<AccessRequestSpecificationV>>) -> bool {
    match o {
        Some(s) => fits_list::<AccessRequestSpecification<'static>>(s),
        None => true,
    }
}

fn write_echo<W: Writer>(w: &mut W, o: &Option<Vec<AccessRequestSpecification<'_>>>) -> (r: Result<
    (),
>)
    ensures
        appended(
            old(w).sink(),
            final(w).sink(),
            enc_echo(echo_view(*o)),
            fits_echo(echo_view(*o)),
            r,
        ),
{
    let ghost w0 = w.sink().bytes;
    match o {
        Some(v) => {
            w.write_u8(1)?;
            write_list(w, v)?;
            assert(w.sink().bytes =~= w0 + enc_echo(echo_view(*o)));
            Ok(())
        },
        None => w.write_u8(0),
    }
}

/// The answer to an access request.
#[verifier::ext_equal]
pub struct AccessResponseV {
    /// Which invocation.
    pub long_invoke_id: LongInvokeId,
    /// When.
    pub date_time: OptionalDateTime,
    /// The operations, echoed.
    pub request_specification: Option<Seq<AccessRequestSpecificationV>>,
    /// One value for each.
    pub data: Seq<DataV>,
    /// What each came to.
    pub response_specification: Seq<AccessResponseSpecificationV>,
}

/// The answer to an access request.
#[derive(Debug, Clone, PartialEq)]
pub struct AccessResponse<'a> {
    /// Which invocation.
    pub long_invoke_id: LongInvokeId,
    /// When.
    pub date_time: OptionalDateTime,
    /// The operations, echoed.
    pub request_specification: Option<Vec<AccessRequestSpecification<'a>>>,
    /// One value for each.
    pub data: Vec<Data<'a>>,
    /// What each came to.
    pub response_specification: Vec<AccessResponseSpecification>,
}

impl<'a> View for AccessResponse<'a> {
    type V = AccessResponseV;

    open spec fn view(&self) -> AccessResponseV {
        AccessResponseV {
            long_invoke_id: self.long_invoke_id,
            date_time: self.date_time,
            request_specification: echo_view(self.request_specification),
            data: views(self.data@),
            response_specification: views(self.response_specification@),
        }
    }
}

impl AccessResponseV {
    /// The encoding.
    pub open spec fn enc(self) -> Seq<u8> {
        self.long_invoke_id.enc()
            + self.date_time.enc()
            + enc_echo(self.request_specification)
            + enc_list::<Data<'static>>(self.data)
            + enc_list::<AccessResponseSpecification>(self.response_specification)
    }

    /// Whether there is one.
    pub open spec fn fits(self) -> bool {
        fits_echo(self.request_specification)
            && fits_list::<Data<'static>>(self.data)
            && fits_list::<AccessResponseSpecification>(self.response_specification)
    }

    /// What stands at a cursor.
    #[verifier::opaque]
    pub open spec fn p(c: Cursor) -> Result<(AccessResponseV, Cursor)> {
        match LongInvokeId::p(c) {
            Err(e) => Err(e),
            Ok((long_invoke_id, c1)) => match OptionalDateTime::p(c1) {
                Err(e) => Err(e),
                Ok((date_time, c2)) => match p_echo(c2) {
                    Err(e) => Err(e),
                    Ok((request_specification, c3)) => match p_list::<Data<'static>>(c3) {
                        Err(e) => Err(e),
                        Ok((data, c4)) => match p_list::<AccessResponseSpecification>(c4) {
                            Err(e) => Err(e),
                            Ok((response_specification, c5)) => Ok(
                                (
                                    AccessResponseV {
                                        long_invoke_id,
                                        date_time,
                                        request_specification,
                                        data,
                                        response_specification,
                                    },
                                    c5,
                                ),
                            ),
                        },
                    },
                },
            },
        }
    }
}

impl<'a> Encode for AccessResponse<'a> {
    open spec fn enc(&self) -> Seq<u8> {
        self@.enc()
    }

    open spec fn encodable(&self) -> bool {
        self@.fits()
    }

    fn encode<W: Writer>(&self, w: &mut W) -> (r: Result<()>) {
        let ghost w0 = w.sink().bytes;
        assert(self.enc() == self@.enc() && self.encodable() == self@.fits());
        self.long_invoke_id.write(w)?;
        self.date_time.write(w)?;
        write_echo(w, &self.request_specification)?;
        write_list(w, &self.data)?;
        write_list(w, &self.response_specification)?;
        assert(w.sink().bytes =~= w0 + self@.enc());
        Ok(())
    }
}

impl<'a> Decode<'a> for AccessResponse<'a> {
    open spec fn parse(c: Cursor) -> Result<(AccessResponseV, Cursor)> {
        AccessResponseV::p(c)
    }

    fn decode(r: &mut Reader<'a>) -> (res: Result<Self>) {
        proof {
            reveal(AccessResponseV::p);
            assert(Self::parse(r@) == AccessResponseV::p(r@));
        }
        let long_invoke_id = LongInvokeId::read(r)?;
        let date_time = OptionalDateTime::read(r)?;
        let request_specification = read_echo(r)?;
        let data = read_list(r)?;
        let response_specification = read_list(r)?;
        Ok(AccessResponse {
            long_invoke_id,
            date_time,
            request_specification,
            data,
            response_specification,
        })
    }
}

} // verus!
