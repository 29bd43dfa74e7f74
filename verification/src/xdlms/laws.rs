//! What is written reads back.
//!
//! A decoder gives only some of the values that the types can hold: a logical name has six
//! bytes, a value in an APDU is one that decodes, and a result that has a name is never
//! given as an unknown one. Those are the valid ones, and each of them reads back from its
//! encoding as what it was, but for where in the input its arrays and structures were
//! found.

use vstd::prelude::*;

use super::list::Wire;
use super::ids::{InvokeId, LongInvokeId, OptionalDateTime};
use super::result::{ActionResult, DataAccessResult, ExceptionResponse, ServiceError, StateError};
use super::service::{
    AccessRequestSpecification, AccessResponseSpecification, ActionResponseWithOptionalData,
    AttributeDescriptorWithSelection, GetDataResult, MethodDescriptor, ReadResult, SelectiveAccess,
    VariableAccess, WriteResult,
};
use crate::axdr::data::Data;
use crate::codec::{Decode, Encode, Error};
#[allow(unused_imports)]
use super::apdu::{ciphered_tag, ApduV};
#[allow(unused_imports)]
use super::ciphering::law_ciphered_service_round_trip;
#[allow(unused_imports)]
use super::initiate::{
    enc_default_true, enc_opt_i8, enc_opt_octets, p_default_true, p_opt_i8, p_opt_octets,
    Conformance, InitiateRequestV, InitiateResponseV,
};
#[allow(unused_imports)]
use super::list::{
    enc_flag, enc_list, enc_opt, enc_run, fits_list, fits_opt, fits_run, p_flag, p_i8, p_list,
    p_opt, p_run, p_u16, p_u32,
};
#[allow(unused_imports)]
use super::service::{
    enc_echo, fits_echo, p_echo, AccessRequestSpecificationV, AccessRequestV,
    AccessResponseSpecificationV, AccessResponseV, ActionRequestV, ActionResponseV,
    ActionResponseWithOptionalDataV, AttributeDescriptorV, AttributeDescriptorWithSelectionV,
    BlockResultV, DataBlockGV, DataBlockSAV, DataNotificationV, GetDataResultV, GetRequestV,
    GetResponseV, MethodDescriptorV, ReadRequestV, ReadResponseV, ReadResultV, SelectiveAccessV,
    SetRequestV, SetResponseV, UnconfirmedWriteRequestV, VariableAccessV, WriteRequestV,
    WriteResponseV, WriteResultV,
};
#[allow(unused_imports)]
use super::tag::{ApduTag, Protection};
#[allow(unused_imports)]
use super::tag::{ciphered_of, law_ciphered_tags, law_tag_round_trip, plain_of, tag_of};
#[allow(unused_imports)]
use crate::acse::{law_release_round_trip, lemma_release_canonical, ReleaseV};
#[allow(unused_imports)]
use crate::axdr::data::{
    law_data_round_trip, law_decoded_is_valid, lemma_peek_split, lemma_signed, p_data, DataV,
};
#[allow(unused_imports)]
use crate::axdr::datetime::{law_wire_round_trip, Date, Time};
#[allow(unused_imports)]
use crate::ber::p_tlv;
#[allow(unused_imports)]
use crate::bytes::{be_bytes, lemma_be_bytes_len, lemma_be_roundtrip, lemma_pow256};
#[allow(unused_imports)]
use crate::codec::{
    enc_length, enc_prefixed, law_length_prefixed_round_trip, law_length_round_trip, length_fits,
    p_length, p_u8, Cursor,
};

verus! {

/// The bytes stand at a cursor.
pub open spec fn stands(c: Cursor, s: Seq<u8>) -> bool {
    &&& c.wf()
    &&& s.len() <= c.left()
    &&& c.peek(s.len()) == s
}

/// Where two strings stand, the first does, and the second behind it.
proof fn lemma_split(c: Cursor, a: Seq<u8>, b: Seq<u8>)
    requires
        stands(c, a + b),
    ensures
        stands(c, a),
        stands(c.adv(a.len()), b),
        c.adv(a.len()).adv(b.len()) == c.adv((a + b).len()),
{
    lemma_peek_split(c, a, b);
    assert(c.adv(a.len()).adv(b.len()) =~= c.adv((a + b).len()));
}

proof fn lemma_u8(c: Cursor, v: u8)
    requires
        stands(c, seq![v]),
    ensures
        p_u8(c) == Ok::<(u8, Cursor), Error>((v, c.adv(1))),
{
    assert(c.buf[c.pos as int] == c.peek(1)[0]);
}

proof fn lemma_i8(c: Cursor, v: i8)
    requires
        stands(c, seq![v as u8]),
    ensures
        p_i8(c) == Ok::<(i8, Cursor), Error>((v, c.adv(1))),
{
    lemma_u8(c, v as u8);
    lemma_signed(v, 0, 0, 0);
}

proof fn lemma_flag(c: Cursor, v: bool)
    requires
        stands(c, enc_flag(v)),
    ensures
        p_flag(c) == Ok::<(bool, Cursor), Error>((v, c.adv(enc_flag(v).len()))),
{
    lemma_u8(c, if v { 1 } else { 0 });
}

proof fn lemma_u16(c: Cursor, v: u16)
    requires
        stands(c, be_bytes(v as nat, 2)),
    ensures
        p_u16(c) == Ok::<(u16, Cursor), Error>((v, c.adv(be_bytes(v as nat, 2).len()))),
{
    lemma_pow256();
    lemma_be_bytes_len(v as nat, 2);
    lemma_be_roundtrip(v as nat, 2);
}

proof fn lemma_u32(c: Cursor, v: u32)
    requires
        stands(c, be_bytes(v as nat, 4)),
    ensures
        p_u32(c) == Ok::<(u32, Cursor), Error>((v, c.adv(be_bytes(v as nat, 4).len()))),
{
    lemma_pow256();
    lemma_be_bytes_len(v as nat, 4);
    lemma_be_roundtrip(v as nat, 4);
}

proof fn lemma_moment(c: Cursor, v: OptionalDateTime)
    requires
        stands(c, v.enc()),
    ensures
        OptionalDateTime::p(c) == Ok::<(OptionalDateTime, Cursor), Error>(
            (v, c.adv(v.enc().len())),
        ),
{
    match v.0 {
        Some(t) => {
            law_length_prefixed_round_trip(c, t.wire());
            law_wire_round_trip(t, Date::of_wire(t.wire()), Time::of_wire(t.wire()));
        },
        None => {
            law_length_prefixed_round_trip(c, Seq::empty());
        },
    }
}

/// No result that has a name is decoded as an unknown one.
proof fn lemma_codes(c: Cursor)
    ensures
        DataAccessResult::p(c) matches Ok((v, _)) ==> DataAccessResult::from_u8(v.as_u8()) == v,
        ActionResult::p(c) matches Ok((v, _)) ==> ActionResult::from_u8(v.as_u8()) == v,
        StateError::p(c) matches Ok((v, _)) ==> StateError::from_u8(v.as_u8()) == v,
        ServiceError::p(c) matches Ok((v, _)) ==> ServiceError::from_u8(v.as_u8()) == v,
{
}

/// A value of a list that reads back.
pub trait ReadsBack<'a>: Wire<'a> {
    /// Whether it is what decoding gives.
    spec fn valid_of(v: Self::V) -> bool;

    /// The same, wherever the values were found.
    spec fn same_of(v: Self::V, w: Self::V) -> bool;

    /// What stands at a cursor is what was written there.
    proof fn lemma_reads_back(c: Cursor, v: Self::V)
        requires
            stands(c, Self::enc_of(v)),
            Self::fits_of(v),
            Self::valid_of(v),
        ensures
            Self::parse(c) matches Ok((w, d)) && Self::same_of(w, v) && d == c.adv(
                Self::enc_of(v).len(),
            ),
    ;

    /// What is decoded is valid.
    proof fn lemma_is_valid(c: Cursor)
        requires
            c.wf(),
        ensures
            Self::parse(c) matches Ok((v, d)) ==> Self::valid_of(v) && d.wf(),
    ;
}

/// Whether a value that may be missing is what decoding gives.
pub open spec fn valid_opt<'a, T: ReadsBack<'a>>(o: Option<T::V>) -> bool {
    match o {
        Some(v) => T::valid_of(v),
        None => true,
    }
}

/// The same value, or none in both.
pub open spec fn same_opt<'a, T: ReadsBack<'a>>(a: Option<T::V>, b: Option<T::V>) -> bool {
    match (a, b) {
        (Some(v), Some(w)) => T::same_of(v, w),
        (None, None) => true,
        _ => false,
    }
}

/// Whether every value of a list is what decoding gives.
pub open spec fn valid_run<'a, T: ReadsBack<'a>>(s: Seq<T::V>) -> bool {
    forall|i: int| 0 <= i < s.len() ==> T::valid_of(#[trigger] s[i])
}

/// The same values, in the same order.
pub open spec fn same_run<'a, T: ReadsBack<'a>>(s: Seq<T::V>, t: Seq<T::V>) -> bool {
    &&& s.len() == t.len()
    &&& forall|i: int| 0 <= i < s.len() ==> T::same_of(#[trigger] s[i], t[i])
}

proof fn lemma_opt<'a, T: ReadsBack<'a>>(c: Cursor, o: Option<T::V>)
    requires
        stands(c, enc_opt::<T>(o)),
        fits_opt::<T>(o),
        valid_opt::<T>(o),
    ensures
        p_opt::<T>(c) matches Ok((w, d)) && same_opt::<T>(w, o) && d == c.adv(
            enc_opt::<T>(o).len(),
        ),
{
    match o {
        None => {
            lemma_u8(c, 0);
        },
        Some(v) => {
            lemma_split(c, seq![1u8], T::enc_of(v));
            lemma_u8(c, 1);
            T::lemma_reads_back(c.adv(1), v);
        },
    }
}

proof fn lemma_opt_valid<'a, T: ReadsBack<'a>>(c: Cursor)
    requires
        c.wf(),
    ensures
        p_opt::<T>(c) matches Ok((o, d)) ==> valid_opt::<T>(o) && d.wf(),
{
    if let Ok((_, d)) = p_u8(c) {
        T::lemma_is_valid(d);
    }
}

proof fn lemma_run<'a, T: ReadsBack<'a>>(c: Cursor, s: Seq<T::V>)
    requires
        stands(c, enc_run::<T>(s)),
        fits_run::<T>(s),
        valid_run::<T>(s),
    ensures
        p_run::<T>(c, s.len()) matches Ok((t, d)) && same_run::<T>(t, s) && d == c.adv(
            enc_run::<T>(s).len(),
        ),
    decreases s.len(),
{
    if s.len() == 0 {
        assert(c.adv(0) =~= c);
    } else {
        let front = s.drop_last();
        let n = enc_run::<T>(front).len();
        lemma_split(c, enc_run::<T>(front), T::enc_of(s.last()));
        assert forall|i: int| 0 <= i < front.len() implies T::fits_of(#[trigger] front[i])
            && T::valid_of(front[i]) by {
            assert(front[i] == s[i]);
        }
        lemma_run::<T>(c, front);
        T::lemma_reads_back(c.adv(n), s[s.len() - 1]);
        let (t, _) = p_run::<T>(c, front.len())->Ok_0;
        let (w, _) = T::parse(c.adv(n))->Ok_0;
        assert forall|i: int| 0 <= i < s.len() implies T::same_of(#[trigger] t.push(w)[i], s[i]) by {
            if i < front.len() {
                assert(T::same_of(t[i], front[i]));
            }
        }
    }
}

proof fn lemma_run_valid<'a, T: ReadsBack<'a>>(c: Cursor, n: nat)
    requires
        c.wf(),
    ensures
        p_run::<T>(c, n) matches Ok((s, d)) ==> valid_run::<T>(s) && d.wf(),
    decreases n,
{
    if n > 0 {
        lemma_run_valid::<T>(c, (n - 1) as nat);
        if let Ok((_, d)) = p_run::<T>(c, (n - 1) as nat) {
            T::lemma_is_valid(d);
        }
    }
}

proof fn lemma_list<'a, T: ReadsBack<'a>>(c: Cursor, s: Seq<T::V>)
    requires
        stands(c, enc_list::<T>(s)),
        fits_list::<T>(s),
        valid_run::<T>(s),
    ensures
        p_list::<T>(c) matches Ok((t, d)) && same_run::<T>(t, s) && d == c.adv(
            enc_list::<T>(s).len(),
        ),
{
    lemma_split(c, enc_length(s.len()), enc_run::<T>(s));
    law_length_round_trip(c, s.len());
    lemma_run::<T>(c.adv(enc_length(s.len()).len()), s);
}

proof fn lemma_list_valid<'a, T: ReadsBack<'a>>(c: Cursor)
    requires
        c.wf(),
    ensures
        p_list::<T>(c) matches Ok((s, d)) ==> valid_run::<T>(s) && d.wf(),
{
    if let Ok((n, d)) = p_length(c) {
        lemma_run_valid::<T>(d, n);
    }
}

impl<'a> ReadsBack<'a> for Data<'a> {
    open spec fn valid_of(v: DataV) -> bool {
        v.valid()
    }

    open spec fn same_of(v: DataV, w: DataV) -> bool {
        v.same(w)
    }

    proof fn lemma_reads_back(c: Cursor, v: DataV) {
        assert(Self::parse(c) == p_data(c, 0));
        law_data_round_trip(c, v);
    }

    proof fn lemma_is_valid(c: Cursor) {
        assert(Self::parse(c) == p_data(c, 0));
        law_decoded_is_valid(c);
    }
}

impl<'a> ReadsBack<'a> for DataAccessResult {
    open spec fn valid_of(v: DataAccessResult) -> bool {
        DataAccessResult::from_u8(v.as_u8()) == v
    }

    open spec fn same_of(v: DataAccessResult, w: DataAccessResult) -> bool {
        v == w
    }

    proof fn lemma_reads_back(c: Cursor, v: DataAccessResult) {
        assert(Self::parse(c) == DataAccessResult::p(c));
        lemma_u8(c, v.as_u8());
    }

    proof fn lemma_is_valid(c: Cursor) {
        assert(Self::parse(c) == DataAccessResult::p(c));
        lemma_codes(c);
    }
}

impl AttributeDescriptorV {
    /// Whether it is what decoding gives.
    pub open spec fn valid(self) -> bool {
        self.instance_id.len() == 6
    }
}

proof fn lemma_attribute_descriptor(c: Cursor, v: AttributeDescriptorV)
    requires
        stands(c, v.enc()),
        v.fits(),
        v.valid(),
    ensures
        AttributeDescriptorV::p(c) == Ok::<(AttributeDescriptorV, Cursor), Error>(
            (v, c.adv(v.enc().len())),
        ),
{
    reveal(AttributeDescriptorV::p);
    let s1 = be_bytes(v.class_id as nat, 2);
    let s2 = s1 + v.instance_id;
    lemma_split(c, s2, seq![v.attribute_id as u8]);
    lemma_split(c, s1, v.instance_id);
    lemma_u16(c, v.class_id);
    lemma_i8(c.adv(s2.len()), v.attribute_id);
}

proof fn lemma_attribute_descriptor_valid(c: Cursor)
    requires
        c.wf(),
    ensures
        AttributeDescriptorV::p(c) matches Ok((v, d)) ==> v.valid() && d.wf(),
{
    reveal(AttributeDescriptorV::p);
}

impl MethodDescriptorV {
    /// Whether it is what decoding gives.
    pub open spec fn valid(self) -> bool {
        self.instance_id.len() == 6
    }
}

proof fn lemma_method_descriptor(c: Cursor, v: MethodDescriptorV)
    requires
        stands(c, v.enc()),
        v.fits(),
        v.valid(),
    ensures
        MethodDescriptorV::p(c) == Ok::<(MethodDescriptorV, Cursor), Error>(
            (v, c.adv(v.enc().len())),
        ),
{
    reveal(MethodDescriptorV::p);
    let s1 = be_bytes(v.class_id as nat, 2);
    let s2 = s1 + v.instance_id;
    lemma_split(c, s2, seq![v.method_id as u8]);
    lemma_split(c, s1, v.instance_id);
    lemma_u16(c, v.class_id);
    lemma_i8(c.adv(s2.len()), v.method_id);
}

proof fn lemma_method_descriptor_valid(c: Cursor)
    requires
        c.wf(),
    ensures
        MethodDescriptorV::p(c) matches Ok((v, d)) ==> v.valid() && d.wf(),
{
    reveal(MethodDescriptorV::p);
}

impl<'a> ReadsBack<'a> for MethodDescriptor {
    open spec fn valid_of(v: MethodDescriptorV) -> bool {
        v.valid()
    }

    open spec fn same_of(v: MethodDescriptorV, w: MethodDescriptorV) -> bool {
        v == w
    }

    proof fn lemma_reads_back(c: Cursor, v: MethodDescriptorV) {
        assert(Self::parse(c) == MethodDescriptorV::p(c));
        lemma_method_descriptor(c, v);
    }

    proof fn lemma_is_valid(c: Cursor) {
        assert(Self::parse(c) == MethodDescriptorV::p(c));
        lemma_method_descriptor_valid(c);
    }
}

impl SelectiveAccessV {
    /// Whether it is what decoding gives.
    pub open spec fn valid(self) -> bool {
        self.parameters.valid()
    }

    /// The same, wherever the values were found.
    pub open spec fn same(self, other: SelectiveAccessV) -> bool {
        &&& self.selector == other.selector
        &&& self.parameters.same(other.parameters)
    }
}

proof fn lemma_selective_access(c: Cursor, v: SelectiveAccessV)
    requires
        stands(c, v.enc()),
        v.fits(),
        v.valid(),
    ensures
        SelectiveAccessV::p(c) matches Ok((w, d)) && w.same(v) && d == c.adv(v.enc().len()),
{
    reveal(SelectiveAccessV::p);
    let s1 = seq![v.selector];
    lemma_split(c, s1, v.parameters.enc());
    lemma_u8(c, v.selector);
    law_data_round_trip(c.adv(s1.len()), v.parameters);
}

proof fn lemma_selective_access_valid(c: Cursor)
    requires
        c.wf(),
    ensures
        SelectiveAccessV::p(c) matches Ok((v, d)) ==> v.valid() && d.wf(),
{
    reveal(SelectiveAccessV::p);
    if let Ok((_, c1)) = p_u8(c) {
        law_decoded_is_valid(c1);
    }
}

impl<'a> ReadsBack<'a> for SelectiveAccess<'a> {
    open spec fn valid_of(v: SelectiveAccessV) -> bool {
        v.valid()
    }

    open spec fn same_of(v: SelectiveAccessV, w: SelectiveAccessV) -> bool {
        v.same(w)
    }

    proof fn lemma_reads_back(c: Cursor, v: SelectiveAccessV) {
        assert(Self::parse(c) == SelectiveAccessV::p(c));
        lemma_selective_access(c, v);
    }

    proof fn lemma_is_valid(c: Cursor) {
        assert(Self::parse(c) == SelectiveAccessV::p(c));
        lemma_selective_access_valid(c);
    }
}

impl AttributeDescriptorWithSelectionV {
    /// Whether it is what decoding gives.
    pub open spec fn valid(self) -> bool {
        &&& self.descriptor.valid()
        &&& valid_opt::<SelectiveAccess<'static>>(self.access)
    }

    /// The same, wherever the values were found.
    pub open spec fn same(self, other: AttributeDescriptorWithSelectionV) -> bool {
        &&& self.descriptor == other.descriptor
        &&& same_opt::<SelectiveAccess<'static>>(self.access, other.access)
    }
}

proof fn lemma_attribute_descriptor_with_selection(c: Cursor, v: AttributeDescriptorWithSelectionV)
    requires
        stands(c, v.enc()),
        v.fits(),
        v.valid(),
    ensures
        AttributeDescriptorWithSelectionV::p(c) matches Ok((w, d))
            && w.same(v)
            && d == c.adv(v.enc().len()),
{
    reveal(AttributeDescriptorWithSelectionV::p);
    let s1 = v.descriptor.enc();
    lemma_split(c, s1, enc_opt::<SelectiveAccess<'static>>(v.access));
    lemma_attribute_descriptor(c, v.descriptor);
    lemma_opt::<SelectiveAccess<'static>>(c.adv(s1.len()), v.access);
}

proof fn lemma_attribute_descriptor_with_selection_valid(c: Cursor)
    requires
        c.wf(),
    ensures
        AttributeDescriptorWithSelectionV::p(c) matches Ok((v, d)) ==> v.valid() && d.wf(),
{
    reveal(AttributeDescriptorWithSelectionV::p);
    lemma_attribute_descriptor_valid(c);
    if let Ok((_, c1)) = AttributeDescriptorV::p(c) {
        lemma_opt_valid::<SelectiveAccess<'static>>(c1);
    }
}

impl<'a> ReadsBack<'a> for AttributeDescriptorWithSelection<'a> {
    open spec fn valid_of(v: AttributeDescriptorWithSelectionV) -> bool {
        v.valid()
    }

    open spec fn same_of(
        v: AttributeDescriptorWithSelectionV,
        w: AttributeDescriptorWithSelectionV,
    ) -> bool {
        v.same(w)
    }

    proof fn lemma_reads_back(c: Cursor, v: AttributeDescriptorWithSelectionV) {
        assert(Self::parse(c) == AttributeDescriptorWithSelectionV::p(c));
        lemma_attribute_descriptor_with_selection(c, v);
    }

    proof fn lemma_is_valid(c: Cursor) {
        assert(Self::parse(c) == AttributeDescriptorWithSelectionV::p(c));
        lemma_attribute_descriptor_with_selection_valid(c);
    }
}

impl GetDataResultV {
    /// Whether it is what decoding gives.
    pub open spec fn valid(self) -> bool {
        match self {
            GetDataResultV::Data(v) => v.valid(),
            GetDataResultV::Error(v) => DataAccessResult::from_u8(v.as_u8()) == v,
        }
    }

    /// The same, wherever the values were found.
    pub open spec fn same(self, other: GetDataResultV) -> bool {
        match (self, other) {
            (GetDataResultV::Data(v), GetDataResultV::Data(w)) => v.same(w),
            _ => self == other,
        }
    }
}

proof fn lemma_get_data_result(c: Cursor, v: GetDataResultV)
    requires
        stands(c, v.enc()),
        v.fits(),
        v.valid(),
    ensures
        GetDataResultV::p(c) matches Ok((w, d)) && w.same(v) && d == c.adv(v.enc().len()),
{
    reveal(GetDataResultV::enc);
    reveal(GetDataResultV::p);
    match v {
        GetDataResultV::Data(x) => {
            let s1 = seq![0u8];
            lemma_split(c, s1, x.enc());
            lemma_u8(c, 0u8);
            law_data_round_trip(c.adv(s1.len()), x);
        },
        GetDataResultV::Error(x) => {
            let s1 = seq![1u8];
            lemma_split(c, s1, seq![x.as_u8()]);
            lemma_u8(c, 1u8);
            lemma_u8(c.adv(s1.len()), x.as_u8());
        },
    }
}

proof fn lemma_get_data_result_valid(c: Cursor)
    requires
        c.wf(),
    ensures
        GetDataResultV::p(c) matches Ok((v, d)) ==> v.valid() && d.wf(),
{
    reveal(GetDataResultV::p);
    if let Ok((tag, c0)) = p_u8(c) {
        if tag == 0 {
            law_decoded_is_valid(c0);
        } else if tag == 1 {
            lemma_codes(c0);
        }
    }
}

impl<'a> ReadsBack<'a> for GetDataResult<'a> {
    open spec fn valid_of(v: GetDataResultV) -> bool {
        v.valid()
    }

    open spec fn same_of(v: GetDataResultV, w: GetDataResultV) -> bool {
        v.same(w)
    }

    proof fn lemma_reads_back(c: Cursor, v: GetDataResultV) {
        assert(Self::parse(c) == GetDataResultV::p(c));
        lemma_get_data_result(c, v);
    }

    proof fn lemma_is_valid(c: Cursor) {
        assert(Self::parse(c) == GetDataResultV::p(c));
        lemma_get_data_result_valid(c);
    }
}

impl BlockResultV {
    /// Whether it is what decoding gives.
    pub open spec fn valid(self) -> bool {
        match self {
            BlockResultV::RawData(_) => true,
            BlockResultV::Error(v) => DataAccessResult::from_u8(v.as_u8()) == v,
        }
    }
}

proof fn lemma_block_result(c: Cursor, v: BlockResultV)
    requires
        stands(c, v.enc()),
        v.fits(),
        v.valid(),
    ensures
        BlockResultV::p(c) == Ok::<(BlockResultV, Cursor), Error>((v, c.adv(v.enc().len()))),
{
    reveal(BlockResultV::enc);
    reveal(BlockResultV::p);
    match v {
        BlockResultV::RawData(x) => {
            let s1 = seq![0u8];
            lemma_split(c, s1, enc_prefixed(x));
            lemma_u8(c, 0u8);
            law_length_prefixed_round_trip(c.adv(s1.len()), x);
        },
        BlockResultV::Error(x) => {
            let s1 = seq![1u8];
            lemma_split(c, s1, seq![x.as_u8()]);
            lemma_u8(c, 1u8);
            lemma_u8(c.adv(s1.len()), x.as_u8());
        },
    }
}

proof fn lemma_block_result_valid(c: Cursor)
    requires
        c.wf(),
    ensures
        BlockResultV::p(c) matches Ok((v, d)) ==> v.valid() && d.wf(),
{
    reveal(BlockResultV::p);
    if let Ok((tag, c0)) = p_u8(c) {
        if tag == 1 {
            lemma_codes(c0);
        }
    }
}

impl DataBlockGV {
    /// Whether it is what decoding gives.
    pub open spec fn valid(self) -> bool {
        self.result.valid()
    }
}

proof fn lemma_data_block_g(c: Cursor, v: DataBlockGV)
    requires
        stands(c, v.enc()),
        v.fits(),
        v.valid(),
    ensures
        DataBlockGV::p(c) == Ok::<(DataBlockGV, Cursor), Error>((v, c.adv(v.enc().len()))),
{
    reveal(DataBlockGV::p);
    let s1 = enc_flag(v.last_block);
    let s2 = s1 + be_bytes(v.block_number as nat, 4);
    lemma_split(c, s2, v.result.enc());
    lemma_split(c, s1, be_bytes(v.block_number as nat, 4));
    lemma_flag(c, v.last_block);
    lemma_u32(c.adv(s1.len()), v.block_number);
    lemma_block_result(c.adv(s2.len()), v.result);
}

proof fn lemma_data_block_g_valid(c: Cursor)
    requires
        c.wf(),
    ensures
        DataBlockGV::p(c) matches Ok((v, d)) ==> v.valid() && d.wf(),
{
    reveal(DataBlockGV::p);
    if let Ok((_, c1)) = p_flag(c) {
        if let Ok((_, c2)) = p_u32(c1) {
            lemma_block_result_valid(c2);
        }
    }
}

proof fn lemma_data_block_s_a(c: Cursor, v: DataBlockSAV)
    requires
        stands(c, v.enc()),
        v.fits(),
    ensures
        DataBlockSAV::p(c) == Ok::<(DataBlockSAV, Cursor), Error>((v, c.adv(v.enc().len()))),
{
    reveal(DataBlockSAV::p);
    let s1 = enc_flag(v.last_block);
    let s2 = s1 + be_bytes(v.block_number as nat, 4);
    lemma_split(c, s2, enc_prefixed(v.raw_data));
    lemma_split(c, s1, be_bytes(v.block_number as nat, 4));
    lemma_flag(c, v.last_block);
    lemma_u32(c.adv(s1.len()), v.block_number);
    law_length_prefixed_round_trip(c.adv(s2.len()), v.raw_data);
}

proof fn lemma_data_block_s_a_valid(c: Cursor)
    requires
        c.wf(),
    ensures
        DataBlockSAV::p(c) matches Ok((v, d)) ==> d.wf(),
{
    reveal(DataBlockSAV::p);
}

impl GetRequestV {
    /// Whether it is what decoding gives.
    pub open spec fn valid(self) -> bool {
        match self {
            GetRequestV::Normal { descriptor, access, .. } => descriptor.valid()
                && valid_opt::<SelectiveAccess<'static>>(access),
            GetRequestV::Next { .. } => true,
            GetRequestV::WithList { list, .. } => valid_run::<AttributeDescriptorWithSelection<'static>>(
                list,
            ),
        }
    }

    /// The same, wherever the values were found.
    pub open spec fn same(self, other: GetRequestV) -> bool {
        match (self, other) {
            (
                GetRequestV::Normal { invoke_id, descriptor, access },
                GetRequestV::Normal {
                    invoke_id: other_invoke_id,
                    descriptor: other_descriptor,
                    access: other_access,
                },
            ) => {
                &&& invoke_id == other_invoke_id
                &&& descriptor == other_descriptor
                &&& same_opt::<SelectiveAccess<'static>>(access, other_access)
            },
            (
                GetRequestV::WithList { invoke_id, list },
                GetRequestV::WithList { invoke_id: other_invoke_id, list: other_list },
            ) => {
                &&& invoke_id == other_invoke_id
                &&& same_run::<AttributeDescriptorWithSelection<'static>>(list, other_list)
            },
            _ => self == other,
        }
    }
}

proof fn lemma_get_request(c: Cursor, v: GetRequestV)
    requires
        stands(c, v.enc()),
        v.fits(),
        v.valid(),
    ensures
        GetRequestV::p(c) matches Ok((w, d)) && w.same(v) && d == c.adv(v.enc().len()),
{
    reveal(GetRequestV::enc);
    reveal(GetRequestV::p);
    match v {
        GetRequestV::Normal { invoke_id, descriptor, access } => {
            let s1 = seq![1u8];
            let s2 = s1 + invoke_id.enc();
            let s3 = s2 + descriptor.enc();
            lemma_split(c, s3, enc_opt::<SelectiveAccess<'static>>(access));
            lemma_split(c, s2, descriptor.enc());
            lemma_split(c, s1, invoke_id.enc());
            lemma_u8(c, 1u8);
            lemma_u8(c.adv(s1.len()), invoke_id.0);
            lemma_attribute_descriptor(c.adv(s2.len()), descriptor);
            lemma_opt::<SelectiveAccess<'static>>(c.adv(s3.len()), access);
        },
        GetRequestV::Next { invoke_id, block_number } => {
            let s1 = seq![2u8];
            let s2 = s1 + invoke_id.enc();
            lemma_split(c, s2, be_bytes(block_number as nat, 4));
            lemma_split(c, s1, invoke_id.enc());
            lemma_u8(c, 2u8);
            lemma_u8(c.adv(s1.len()), invoke_id.0);
            lemma_u32(c.adv(s2.len()), block_number);
        },
        GetRequestV::WithList { invoke_id, list } => {
            let s1 = seq![3u8];
            let s2 = s1 + invoke_id.enc();
            lemma_split(c, s2, enc_list::<AttributeDescriptorWithSelection<'static>>(list));
            lemma_split(c, s1, invoke_id.enc());
            lemma_u8(c, 3u8);
            lemma_u8(c.adv(s1.len()), invoke_id.0);
            lemma_list::<AttributeDescriptorWithSelection<'static>>(c.adv(s2.len()), list);
        },
    }
}

proof fn lemma_get_request_valid(c: Cursor)
    requires
        c.wf(),
    ensures
        GetRequestV::p(c) matches Ok((v, d)) ==> v.valid() && d.wf(),
{
    reveal(GetRequestV::p);
    if let Ok((tag, c0)) = p_u8(c) {
        if tag == 1 {
            if let Ok((_, c1)) = InvokeId::p(c0) {
                lemma_attribute_descriptor_valid(c1);
                if let Ok((_, c2)) = AttributeDescriptorV::p(c1) {
                    lemma_opt_valid::<SelectiveAccess<'static>>(c2);
                }
            }
        } else if tag == 3 {
            if let Ok((_, c1)) = InvokeId::p(c0) {
                lemma_list_valid::<AttributeDescriptorWithSelection<'static>>(c1);
            }
        }
    }
}

impl GetResponseV {
    /// Whether it is what decoding gives.
    pub open spec fn valid(self) -> bool {
        match self {
            GetResponseV::Normal { result, .. } => result.valid(),
            GetResponseV::WithDataBlock { block, .. } => block.valid(),
            GetResponseV::WithList { results, .. } => valid_run::<GetDataResult<'static>>(results),
        }
    }

    /// The same, wherever the values were found.
    pub open spec fn same(self, other: GetResponseV) -> bool {
        match (self, other) {
            (
                GetResponseV::Normal { invoke_id, result },
                GetResponseV::Normal { invoke_id: other_invoke_id, result: other_result },
            ) => {
                &&& invoke_id == other_invoke_id
                &&& result.same(other_result)
            },
            (
                GetResponseV::WithList { invoke_id, results },
                GetResponseV::WithList { invoke_id: other_invoke_id, results: other_results },
            ) => {
                &&& invoke_id == other_invoke_id
                &&& same_run::<GetDataResult<'static>>(results, other_results)
            },
            _ => self == other,
        }
    }
}

proof fn lemma_get_response(c: Cursor, v: GetResponseV)
    requires
        stands(c, v.enc()),
        v.fits(),
        v.valid(),
    ensures
        GetResponseV::p(c) matches Ok((w, d)) && w.same(v) && d == c.adv(v.enc().len()),
{
    reveal(GetResponseV::enc);
    reveal(GetResponseV::p);
    match v {
        GetResponseV::Normal { invoke_id, result } => {
            let s1 = seq![1u8];
            let s2 = s1 + invoke_id.enc();
            lemma_split(c, s2, result.enc());
            lemma_split(c, s1, invoke_id.enc());
            lemma_u8(c, 1u8);
            lemma_u8(c.adv(s1.len()), invoke_id.0);
            lemma_get_data_result(c.adv(s2.len()), result);
        },
        GetResponseV::WithDataBlock { invoke_id, block } => {
            let s1 = seq![2u8];
            let s2 = s1 + invoke_id.enc();
            lemma_split(c, s2, block.enc());
            lemma_split(c, s1, invoke_id.enc());
            lemma_u8(c, 2u8);
            lemma_u8(c.adv(s1.len()), invoke_id.0);
            lemma_data_block_g(c.adv(s2.len()), block);
        },
        GetResponseV::WithList { invoke_id, results } => {
            let s1 = seq![3u8];
            let s2 = s1 + invoke_id.enc();
            lemma_split(c, s2, enc_list::<GetDataResult<'static>>(results));
            lemma_split(c, s1, invoke_id.enc());
            lemma_u8(c, 3u8);
            lemma_u8(c.adv(s1.len()), invoke_id.0);
            lemma_list::<GetDataResult<'static>>(c.adv(s2.len()), results);
        },
    }
}

proof fn lemma_get_response_valid(c: Cursor)
    requires
        c.wf(),
    ensures
        GetResponseV::p(c) matches Ok((v, d)) ==> v.valid() && d.wf(),
{
    reveal(GetResponseV::p);
    if let Ok((tag, c0)) = p_u8(c) {
        if tag == 1 {
            if let Ok((_, c1)) = InvokeId::p(c0) {
                lemma_get_data_result_valid(c1);
            }
        } else if tag == 2 {
            if let Ok((_, c1)) = InvokeId::p(c0) {
                lemma_data_block_g_valid(c1);
            }
        } else if tag == 3 {
            if let Ok((_, c1)) = InvokeId::p(c0) {
                lemma_list_valid::<GetDataResult<'static>>(c1);
            }
        }
    }
}

impl SetRequestV {
    /// Whether it is what decoding gives.
    pub open spec fn valid(self) -> bool {
        match self {
            SetRequestV::Normal { descriptor, access, value, .. } => descriptor.valid()
                && valid_opt::<SelectiveAccess<'static>>(access)
                && value.valid(),
            SetRequestV::WithFirstDataBlock { descriptor, access, .. } => descriptor.valid()
                && valid_opt::<SelectiveAccess<'static>>(access),
            SetRequestV::WithDataBlock { .. } => true,
            SetRequestV::WithList { descriptors, values, .. } => valid_run::<AttributeDescriptorWithSelection<'static>>(
                descriptors,
            )
                && valid_run::<Data<'static>>(values),
            SetRequestV::WithListAndFirstDataBlock { descriptors, .. } => valid_run::<AttributeDescriptorWithSelection<'static>>(
                descriptors,
            ),
        }
    }

    /// The same, wherever the values were found.
    pub open spec fn same(self, other: SetRequestV) -> bool {
        match (self, other) {
            (
                SetRequestV::Normal { invoke_id, descriptor, access, value },
                SetRequestV::Normal {
                    invoke_id: other_invoke_id,
                    descriptor: other_descriptor,
                    access: other_access,
                    value: other_value,
                },
            ) => {
                &&& invoke_id == other_invoke_id
                &&& descriptor == other_descriptor
                &&& same_opt::<SelectiveAccess<'static>>(access, other_access)
                &&& value.same(other_value)
            },
            (
                SetRequestV::WithFirstDataBlock { invoke_id, descriptor, access, block },
                SetRequestV::WithFirstDataBlock {
                    invoke_id: other_invoke_id,
                    descriptor: other_descriptor,
                    access: other_access,
                    block: other_block,
                },
            ) => {
                &&& invoke_id == other_invoke_id
                &&& descriptor == other_descriptor
                &&& same_opt::<SelectiveAccess<'static>>(access, other_access)
                &&& block == other_block
            },
            (
                SetRequestV::WithList { invoke_id, descriptors, values },
                SetRequestV::WithList {
                    invoke_id: other_invoke_id,
                    descriptors: other_descriptors,
                    values: other_values,
                },
            ) => {
                &&& invoke_id == other_invoke_id
                &&& same_run::<AttributeDescriptorWithSelection<'static>>(descriptors, other_descriptors)
                &&& same_run::<Data<'static>>(values, other_values)
            },
            (
                SetRequestV::WithListAndFirstDataBlock { invoke_id, descriptors, block },
                SetRequestV::WithListAndFirstDataBlock {
                    invoke_id: other_invoke_id,
                    descriptors: other_descriptors,
                    block: other_block,
                },
            ) => {
                &&& invoke_id == other_invoke_id
                &&& same_run::<AttributeDescriptorWithSelection<'static>>(descriptors, other_descriptors)
                &&& block == other_block
            },
            _ => self == other,
        }
    }
}

proof fn lemma_set_request(c: Cursor, v: SetRequestV)
    requires
        stands(c, v.enc()),
        v.fits(),
        v.valid(),
    ensures
        SetRequestV::p(c) matches Ok((w, d)) && w.same(v) && d == c.adv(v.enc().len()),
{
    reveal(SetRequestV::enc);
    reveal(SetRequestV::p);
    match v {
        SetRequestV::Normal { invoke_id, descriptor, access, value } => {
            let s1 = seq![1u8];
            let s2 = s1 + invoke_id.enc();
            let s3 = s2 + descriptor.enc();
            let s4 = s3 + enc_opt::<SelectiveAccess<'static>>(access);
            lemma_split(c, s4, value.enc());
            lemma_split(c, s3, enc_opt::<SelectiveAccess<'static>>(access));
            lemma_split(c, s2, descriptor.enc());
            lemma_split(c, s1, invoke_id.enc());
            lemma_u8(c, 1u8);
            lemma_u8(c.adv(s1.len()), invoke_id.0);
            lemma_attribute_descriptor(c.adv(s2.len()), descriptor);
            lemma_opt::<SelectiveAccess<'static>>(c.adv(s3.len()), access);
            law_data_round_trip(c.adv(s4.len()), value);
        },
        SetRequestV::WithFirstDataBlock { invoke_id, descriptor, access, block } => {
            let s1 = seq![2u8];
            let s2 = s1 + invoke_id.enc();
            let s3 = s2 + descriptor.enc();
            let s4 = s3 + enc_opt::<SelectiveAccess<'static>>(access);
            lemma_split(c, s4, block.enc());
            lemma_split(c, s3, enc_opt::<SelectiveAccess<'static>>(access));
            lemma_split(c, s2, descriptor.enc());
            lemma_split(c, s1, invoke_id.enc());
            lemma_u8(c, 2u8);
            lemma_u8(c.adv(s1.len()), invoke_id.0);
            lemma_attribute_descriptor(c.adv(s2.len()), descriptor);
            lemma_opt::<SelectiveAccess<'static>>(c.adv(s3.len()), access);
            lemma_data_block_s_a(c.adv(s4.len()), block);
        },
        SetRequestV::WithDataBlock { invoke_id, block } => {
            let s1 = seq![3u8];
            let s2 = s1 + invoke_id.enc();
            lemma_split(c, s2, block.enc());
            lemma_split(c, s1, invoke_id.enc());
            lemma_u8(c, 3u8);
            lemma_u8(c.adv(s1.len()), invoke_id.0);
            lemma_data_block_s_a(c.adv(s2.len()), block);
        },
        SetRequestV::WithList { invoke_id, descriptors, values } => {
            let s1 = seq![4u8];
            let s2 = s1 + invoke_id.enc();
            let s3 = s2 + enc_list::<AttributeDescriptorWithSelection<'static>>(descriptors);
            lemma_split(c, s3, enc_list::<Data<'static>>(values));
            lemma_split(c, s2, enc_list::<AttributeDescriptorWithSelection<'static>>(descriptors));
            lemma_split(c, s1, invoke_id.enc());
            lemma_u8(c, 4u8);
            lemma_u8(c.adv(s1.len()), invoke_id.0);
            lemma_list::<AttributeDescriptorWithSelection<'static>>(c.adv(s2.len()), descriptors);
            lemma_list::<Data<'static>>(c.adv(s3.len()), values);
        },
        SetRequestV::WithListAndFirstDataBlock { invoke_id, descriptors, block } => {
            let s1 = seq![5u8];
            let s2 = s1 + invoke_id.enc();
            let s3 = s2 + enc_list::<AttributeDescriptorWithSelection<'static>>(descriptors);
            lemma_split(c, s3, block.enc());
            lemma_split(c, s2, enc_list::<AttributeDescriptorWithSelection<'static>>(descriptors));
            lemma_split(c, s1, invoke_id.enc());
            lemma_u8(c, 5u8);
            lemma_u8(c.adv(s1.len()), invoke_id.0);
            lemma_list::<AttributeDescriptorWithSelection<'static>>(c.adv(s2.len()), descriptors);
            lemma_data_block_s_a(c.adv(s3.len()), block);
        },
    }
}

proof fn lemma_set_request_valid(c: Cursor)
    requires
        c.wf(),
    ensures
        SetRequestV::p(c) matches Ok((v, d)) ==> v.valid() && d.wf(),
{
    reveal(SetRequestV::p);
    if let Ok((tag, c0)) = p_u8(c) {
        if tag == 1 {
            if let Ok((_, c1)) = InvokeId::p(c0) {
                lemma_attribute_descriptor_valid(c1);
                if let Ok((_, c2)) = AttributeDescriptorV::p(c1) {
                    lemma_opt_valid::<SelectiveAccess<'static>>(c2);
                    if let Ok((_, c3)) = p_opt::<SelectiveAccess<'static>>(c2) {
                        law_decoded_is_valid(c3);
                    }
                }
            }
        } else if tag == 2 {
            if let Ok((_, c1)) = InvokeId::p(c0) {
                lemma_attribute_descriptor_valid(c1);
                if let Ok((_, c2)) = AttributeDescriptorV::p(c1) {
                    lemma_opt_valid::<SelectiveAccess<'static>>(c2);
                    if let Ok((_, c3)) = p_opt::<SelectiveAccess<'static>>(c2) {
                        lemma_data_block_s_a_valid(c3);
                    }
                }
            }
        } else if tag == 3 {
            if let Ok((_, c1)) = InvokeId::p(c0) {
                lemma_data_block_s_a_valid(c1);
            }
        } else if tag == 4 {
            if let Ok((_, c1)) = InvokeId::p(c0) {
                lemma_list_valid::<AttributeDescriptorWithSelection<'static>>(c1);
                if let Ok((_, c2)) = p_list::<AttributeDescriptorWithSelection<'static>>(c1) {
                    lemma_list_valid::<Data<'static>>(c2);
                }
            }
        } else if tag == 5 {
            if let Ok((_, c1)) = InvokeId::p(c0) {
                lemma_list_valid::<AttributeDescriptorWithSelection<'static>>(c1);
                if let Ok((_, c2)) = p_list::<AttributeDescriptorWithSelection<'static>>(c1) {
                    lemma_data_block_s_a_valid(c2);
                }
            }
        }
    }
}

impl SetResponseV {
    /// Whether it is what decoding gives.
    pub open spec fn valid(self) -> bool {
        match self {
            SetResponseV::Normal { result, .. } => DataAccessResult::from_u8(result.as_u8()) == result,
            SetResponseV::DataBlock { .. } => true,
            SetResponseV::LastDataBlock { result, .. } => DataAccessResult::from_u8(result.as_u8()) == result,
            SetResponseV::LastDataBlockWithList { results, .. } => valid_run::<DataAccessResult>(
                results,
            ),
            SetResponseV::WithList { results, .. } => valid_run::<DataAccessResult>(results),
        }
    }

    /// The same, wherever the values were found.
    pub open spec fn same(self, other: SetResponseV) -> bool {
        match (self, other) {
            (
                SetResponseV::LastDataBlockWithList { invoke_id, results, block_number },
                SetResponseV::LastDataBlockWithList {
                    invoke_id: other_invoke_id,
                    results: other_results,
                    block_number: other_block_number,
                },
            ) => {
                &&& invoke_id == other_invoke_id
                &&& same_run::<DataAccessResult>(results, other_results)
                &&& block_number == other_block_number
            },
            (
                SetResponseV::WithList { invoke_id, results },
                SetResponseV::WithList { invoke_id: other_invoke_id, results: other_results },
            ) => {
                &&& invoke_id == other_invoke_id
                &&& same_run::<DataAccessResult>(results, other_results)
            },
            _ => self == other,
        }
    }
}

proof fn lemma_set_response(c: Cursor, v: SetResponseV)
    requires
        stands(c, v.enc()),
        v.fits(),
        v.valid(),
    ensures
        SetResponseV::p(c) matches Ok((w, d)) && w.same(v) && d == c.adv(v.enc().len()),
{
    reveal(SetResponseV::enc);
    reveal(SetResponseV::p);
    match v {
        SetResponseV::Normal { invoke_id, result } => {
            let s1 = seq![1u8];
            let s2 = s1 + invoke_id.enc();
            lemma_split(c, s2, seq![result.as_u8()]);
            lemma_split(c, s1, invoke_id.enc());
            lemma_u8(c, 1u8);
            lemma_u8(c.adv(s1.len()), invoke_id.0);
            lemma_u8(c.adv(s2.len()), result.as_u8());
        },
        SetResponseV::DataBlock { invoke_id, block_number } => {
            let s1 = seq![2u8];
            let s2 = s1 + invoke_id.enc();
            lemma_split(c, s2, be_bytes(block_number as nat, 4));
            lemma_split(c, s1, invoke_id.enc());
            lemma_u8(c, 2u8);
            lemma_u8(c.adv(s1.len()), invoke_id.0);
            lemma_u32(c.adv(s2.len()), block_number);
        },
        SetResponseV::LastDataBlock { invoke_id, result, block_number } => {
            let s1 = seq![3u8];
            let s2 = s1 + invoke_id.enc();
            let s3 = s2 + seq![result.as_u8()];
            lemma_split(c, s3, be_bytes(block_number as nat, 4));
            lemma_split(c, s2, seq![result.as_u8()]);
            lemma_split(c, s1, invoke_id.enc());
            lemma_u8(c, 3u8);
            lemma_u8(c.adv(s1.len()), invoke_id.0);
            lemma_u8(c.adv(s2.len()), result.as_u8());
            lemma_u32(c.adv(s3.len()), block_number);
        },
        SetResponseV::LastDataBlockWithList { invoke_id, results, block_number } => {
            let s1 = seq![4u8];
            let s2 = s1 + invoke_id.enc();
            let s3 = s2 + enc_list::<DataAccessResult>(results);
            lemma_split(c, s3, be_bytes(block_number as nat, 4));
            lemma_split(c, s2, enc_list::<DataAccessResult>(results));
            lemma_split(c, s1, invoke_id.enc());
            lemma_u8(c, 4u8);
            lemma_u8(c.adv(s1.len()), invoke_id.0);
            lemma_list::<DataAccessResult>(c.adv(s2.len()), results);
            lemma_u32(c.adv(s3.len()), block_number);
        },
        SetResponseV::WithList { invoke_id, results } => {
            let s1 = seq![5u8];
            let s2 = s1 + invoke_id.enc();
            lemma_split(c, s2, enc_list::<DataAccessResult>(results));
            lemma_split(c, s1, invoke_id.enc());
            lemma_u8(c, 5u8);
            lemma_u8(c.adv(s1.len()), invoke_id.0);
            lemma_list::<DataAccessResult>(c.adv(s2.len()), results);
        },
    }
}

proof fn lemma_set_response_valid(c: Cursor)
    requires
        c.wf(),
    ensures
        SetResponseV::p(c) matches Ok((v, d)) ==> v.valid() && d.wf(),
{
    reveal(SetResponseV::p);
    if let Ok((tag, c0)) = p_u8(c) {
        if tag == 1 {
            if let Ok((_, c1)) = InvokeId::p(c0) {
                lemma_codes(c1);
            }
        } else if tag == 3 {
            if let Ok((_, c1)) = InvokeId::p(c0) {
                lemma_codes(c1);
            }
        } else if tag == 4 {
            if let Ok((_, c1)) = InvokeId::p(c0) {
                lemma_list_valid::<DataAccessResult>(c1);
            }
        } else if tag == 5 {
            if let Ok((_, c1)) = InvokeId::p(c0) {
                lemma_list_valid::<DataAccessResult>(c1);
            }
        }
    }
}

impl ActionResponseWithOptionalDataV {
    /// Whether it is what decoding gives.
    pub open spec fn valid(self) -> bool {
        &&& ActionResult::from_u8(self.result.as_u8()) == self.result
        &&& valid_opt::<GetDataResult<'static>>(self.return_parameters)
    }

    /// The same, wherever the values were found.
    pub open spec fn same(self, other: ActionResponseWithOptionalDataV) -> bool {
        &&& self.result == other.result
        &&& same_opt::<GetDataResult<'static>>(self.return_parameters, other.return_parameters)
    }
}

proof fn lemma_action_response_with_optional_data(c: Cursor, v: ActionResponseWithOptionalDataV)
    requires
        stands(c, v.enc()),
        v.fits(),
        v.valid(),
    ensures
        ActionResponseWithOptionalDataV::p(c) matches Ok((w, d))
            && w.same(v)
            && d == c.adv(v.enc().len()),
{
    reveal(ActionResponseWithOptionalDataV::p);
    let s1 = seq![v.result.as_u8()];
    lemma_split(c, s1, enc_opt::<GetDataResult<'static>>(v.return_parameters));
    lemma_u8(c, v.result.as_u8());
    lemma_opt::<GetDataResult<'static>>(c.adv(s1.len()), v.return_parameters);
}

proof fn lemma_action_response_with_optional_data_valid(c: Cursor)
    requires
        c.wf(),
    ensures
        ActionResponseWithOptionalDataV::p(c) matches Ok((v, d)) ==> v.valid() && d.wf(),
{
    reveal(ActionResponseWithOptionalDataV::p);
    lemma_codes(c);
    if let Ok((_, c1)) = ActionResult::p(c) {
        lemma_opt_valid::<GetDataResult<'static>>(c1);
    }
}

impl<'a> ReadsBack<'a> for ActionResponseWithOptionalData<'a> {
    open spec fn valid_of(v: ActionResponseWithOptionalDataV) -> bool {
        v.valid()
    }

    open spec fn same_of(
        v: ActionResponseWithOptionalDataV,
        w: ActionResponseWithOptionalDataV,
    ) -> bool {
        v.same(w)
    }

    proof fn lemma_reads_back(c: Cursor, v: ActionResponseWithOptionalDataV) {
        assert(Self::parse(c) == ActionResponseWithOptionalDataV::p(c));
        lemma_action_response_with_optional_data(c, v);
    }

    proof fn lemma_is_valid(c: Cursor) {
        assert(Self::parse(c) == ActionResponseWithOptionalDataV::p(c));
        lemma_action_response_with_optional_data_valid(c);
    }
}

impl ActionRequestV {
    /// Whether it is what decoding gives.
    pub open spec fn valid(self) -> bool {
        match self {
            ActionRequestV::Normal { descriptor, parameters, .. } => descriptor.valid()
                && valid_opt::<Data<'static>>(parameters),
            ActionRequestV::NextPblock { .. } => true,
            ActionRequestV::WithList { descriptors, parameters, .. } => valid_run::<MethodDescriptor>(
                descriptors,
            )
                && valid_run::<Data<'static>>(parameters),
            ActionRequestV::WithFirstPblock { descriptor, .. } => descriptor.valid(),
            ActionRequestV::WithListAndFirstPblock { descriptors, .. } => valid_run::<MethodDescriptor>(
                descriptors,
            ),
            ActionRequestV::WithPblock { .. } => true,
        }
    }

    /// The same, wherever the values were found.
    pub open spec fn same(self, other: ActionRequestV) -> bool {
        match (self, other) {
            (
                ActionRequestV::Normal { invoke_id, descriptor, parameters },
                ActionRequestV::Normal {
                    invoke_id: other_invoke_id,
                    descriptor: other_descriptor,
                    parameters: other_parameters,
                },
            ) => {
                &&& invoke_id == other_invoke_id
                &&& descriptor == other_descriptor
                &&& same_opt::<Data<'static>>(parameters, other_parameters)
            },
            (
                ActionRequestV::WithList { invoke_id, descriptors, parameters },
                ActionRequestV::WithList {
                    invoke_id: other_invoke_id,
                    descriptors: other_descriptors,
                    parameters: other_parameters,
                },
            ) => {
                &&& invoke_id == other_invoke_id
                &&& same_run::<MethodDescriptor>(descriptors, other_descriptors)
                &&& same_run::<Data<'static>>(parameters, other_parameters)
            },
            (
                ActionRequestV::WithListAndFirstPblock { invoke_id, descriptors, block },
                ActionRequestV::WithListAndFirstPblock {
                    invoke_id: other_invoke_id,
                    descriptors: other_descriptors,
                    block: other_block,
                },
            ) => {
                &&& invoke_id == other_invoke_id
                &&& same_run::<MethodDescriptor>(descriptors, other_descriptors)
                &&& block == other_block
            },
            _ => self == other,
        }
    }
}

proof fn lemma_action_request(c: Cursor, v: ActionRequestV)
    requires
        stands(c, v.enc()),
        v.fits(),
        v.valid(),
    ensures
        ActionRequestV::p(c) matches Ok((w, d)) && w.same(v) && d == c.adv(v.enc().len()),
{
    reveal(ActionRequestV::enc);
    reveal(ActionRequestV::p);
    match v {
        ActionRequestV::Normal { invoke_id, descriptor, parameters } => {
            let s1 = seq![1u8];
            let s2 = s1 + invoke_id.enc();
            let s3 = s2 + descriptor.enc();
            lemma_split(c, s3, enc_opt::<Data<'static>>(parameters));
            lemma_split(c, s2, descriptor.enc());
            lemma_split(c, s1, invoke_id.enc());
            lemma_u8(c, 1u8);
            lemma_u8(c.adv(s1.len()), invoke_id.0);
            lemma_method_descriptor(c.adv(s2.len()), descriptor);
            lemma_opt::<Data<'static>>(c.adv(s3.len()), parameters);
        },
        ActionRequestV::NextPblock { invoke_id, block_number } => {
            let s1 = seq![2u8];
            let s2 = s1 + invoke_id.enc();
            lemma_split(c, s2, be_bytes(block_number as nat, 4));
            lemma_split(c, s1, invoke_id.enc());
            lemma_u8(c, 2u8);
            lemma_u8(c.adv(s1.len()), invoke_id.0);
            lemma_u32(c.adv(s2.len()), block_number);
        },
        ActionRequestV::WithList { invoke_id, descriptors, parameters } => {
            let s1 = seq![3u8];
            let s2 = s1 + invoke_id.enc();
            let s3 = s2 + enc_list::<MethodDescriptor>(descriptors);
            lemma_split(c, s3, enc_list::<Data<'static>>(parameters));
            lemma_split(c, s2, enc_list::<MethodDescriptor>(descriptors));
            lemma_split(c, s1, invoke_id.enc());
            lemma_u8(c, 3u8);
            lemma_u8(c.adv(s1.len()), invoke_id.0);
            lemma_list::<MethodDescriptor>(c.adv(s2.len()), descriptors);
            lemma_list::<Data<'static>>(c.adv(s3.len()), parameters);
        },
        ActionRequestV::WithFirstPblock { invoke_id, descriptor, block } => {
            let s1 = seq![4u8];
            let s2 = s1 + invoke_id.enc();
            let s3 = s2 + descriptor.enc();
            lemma_split(c, s3, block.enc());
            lemma_split(c, s2, descriptor.enc());
            lemma_split(c, s1, invoke_id.enc());
            lemma_u8(c, 4u8);
            lemma_u8(c.adv(s1.len()), invoke_id.0);
            lemma_method_descriptor(c.adv(s2.len()), descriptor);
            lemma_data_block_s_a(c.adv(s3.len()), block);
        },
        ActionRequestV::WithListAndFirstPblock { invoke_id, descriptors, block } => {
            let s1 = seq![5u8];
            let s2 = s1 + invoke_id.enc();
            let s3 = s2 + enc_list::<MethodDescriptor>(descriptors);
            lemma_split(c, s3, block.enc());
            lemma_split(c, s2, enc_list::<MethodDescriptor>(descriptors));
            lemma_split(c, s1, invoke_id.enc());
            lemma_u8(c, 5u8);
            lemma_u8(c.adv(s1.len()), invoke_id.0);
            lemma_list::<MethodDescriptor>(c.adv(s2.len()), descriptors);
            lemma_data_block_s_a(c.adv(s3.len()), block);
        },
        ActionRequestV::WithPblock { invoke_id, block } => {
            let s1 = seq![6u8];
            let s2 = s1 + invoke_id.enc();
            lemma_split(c, s2, block.enc());
            lemma_split(c, s1, invoke_id.enc());
            lemma_u8(c, 6u8);
            lemma_u8(c.adv(s1.len()), invoke_id.0);
            lemma_data_block_s_a(c.adv(s2.len()), block);
        },
    }
}

proof fn lemma_action_request_valid(c: Cursor)
    requires
        c.wf(),
    ensures
        ActionRequestV::p(c) matches Ok((v, d)) ==> v.valid() && d.wf(),
{
    reveal(ActionRequestV::p);
    if let Ok((tag, c0)) = p_u8(c) {
        if tag == 1 {
            if let Ok((_, c1)) = InvokeId::p(c0) {
                lemma_method_descriptor_valid(c1);
                if let Ok((_, c2)) = MethodDescriptorV::p(c1) {
                    lemma_opt_valid::<Data<'static>>(c2);
                }
            }
        } else if tag == 3 {
            if let Ok((_, c1)) = InvokeId::p(c0) {
                lemma_list_valid::<MethodDescriptor>(c1);
                if let Ok((_, c2)) = p_list::<MethodDescriptor>(c1) {
                    lemma_list_valid::<Data<'static>>(c2);
                }
            }
        } else if tag == 4 {
            if let Ok((_, c1)) = InvokeId::p(c0) {
                lemma_method_descriptor_valid(c1);
                if let Ok((_, c2)) = MethodDescriptorV::p(c1) {
                    lemma_data_block_s_a_valid(c2);
                }
            }
        } else if tag == 5 {
            if let Ok((_, c1)) = InvokeId::p(c0) {
                lemma_list_valid::<MethodDescriptor>(c1);
                if let Ok((_, c2)) = p_list::<MethodDescriptor>(c1) {
                    lemma_data_block_s_a_valid(c2);
                }
            }
        } else if tag == 6 {
            if let Ok((_, c1)) = InvokeId::p(c0) {
                lemma_data_block_s_a_valid(c1);
            }
        }
    }
}

impl ActionResponseV {
    /// Whether it is what decoding gives.
    pub open spec fn valid(self) -> bool {
        match self {
            ActionResponseV::Normal { response, .. } => response.valid(),
            ActionResponseV::WithPblock { .. } => true,
            ActionResponseV::WithList { responses, .. } => valid_run::<ActionResponseWithOptionalData<'static>>(
                responses,
            ),
            ActionResponseV::NextPblock { .. } => true,
        }
    }

    /// The same, wherever the values were found.
    pub open spec fn same(self, other: ActionResponseV) -> bool {
        match (self, other) {
            (
                ActionResponseV::Normal { invoke_id, response },
                ActionResponseV::Normal { invoke_id: other_invoke_id, response: other_response },
            ) => {
                &&& invoke_id == other_invoke_id
                &&& response.same(other_response)
            },
            (
                ActionResponseV::WithList { invoke_id, responses },
                ActionResponseV::WithList {
                    invoke_id: other_invoke_id,
                    responses: other_responses,
                },
            ) => {
                &&& invoke_id == other_invoke_id
                &&& same_run::<ActionResponseWithOptionalData<'static>>(responses, other_responses)
            },
            _ => self == other,
        }
    }
}

proof fn lemma_action_response(c: Cursor, v: ActionResponseV)
    requires
        stands(c, v.enc()),
        v.fits(),
        v.valid(),
    ensures
        ActionResponseV::p(c) matches Ok((w, d)) && w.same(v) && d == c.adv(v.enc().len()),
{
    reveal(ActionResponseV::enc);
    reveal(ActionResponseV::p);
    match v {
        ActionResponseV::Normal { invoke_id, response } => {
            let s1 = seq![1u8];
            let s2 = s1 + invoke_id.enc();
            lemma_split(c, s2, response.enc());
            lemma_split(c, s1, invoke_id.enc());
            lemma_u8(c, 1u8);
            lemma_u8(c.adv(s1.len()), invoke_id.0);
            lemma_action_response_with_optional_data(c.adv(s2.len()), response);
        },
        ActionResponseV::WithPblock { invoke_id, block } => {
            let s1 = seq![2u8];
            let s2 = s1 + invoke_id.enc();
            lemma_split(c, s2, block.enc());
            lemma_split(c, s1, invoke_id.enc());
            lemma_u8(c, 2u8);
            lemma_u8(c.adv(s1.len()), invoke_id.0);
            lemma_data_block_s_a(c.adv(s2.len()), block);
        },
        ActionResponseV::WithList { invoke_id, responses } => {
            let s1 = seq![3u8];
            let s2 = s1 + invoke_id.enc();
            lemma_split(c, s2, enc_list::<ActionResponseWithOptionalData<'static>>(responses));
            lemma_split(c, s1, invoke_id.enc());
            lemma_u8(c, 3u8);
            lemma_u8(c.adv(s1.len()), invoke_id.0);
            lemma_list::<ActionResponseWithOptionalData<'static>>(c.adv(s2.len()), responses);
        },
        ActionResponseV::NextPblock { invoke_id, block_number } => {
            let s1 = seq![4u8];
            let s2 = s1 + invoke_id.enc();
            lemma_split(c, s2, be_bytes(block_number as nat, 4));
            lemma_split(c, s1, invoke_id.enc());
            lemma_u8(c, 4u8);
            lemma_u8(c.adv(s1.len()), invoke_id.0);
            lemma_u32(c.adv(s2.len()), block_number);
        },
    }
}

proof fn lemma_action_response_valid(c: Cursor)
    requires
        c.wf(),
    ensures
        ActionResponseV::p(c) matches Ok((v, d)) ==> v.valid() && d.wf(),
{
    reveal(ActionResponseV::p);
    if let Ok((tag, c0)) = p_u8(c) {
        if tag == 1 {
            if let Ok((_, c1)) = InvokeId::p(c0) {
                lemma_action_response_with_optional_data_valid(c1);
            }
        } else if tag == 2 {
            if let Ok((_, c1)) = InvokeId::p(c0) {
                lemma_data_block_s_a_valid(c1);
            }
        } else if tag == 3 {
            if let Ok((_, c1)) = InvokeId::p(c0) {
                lemma_list_valid::<ActionResponseWithOptionalData<'static>>(c1);
            }
        }
    }
}

impl AccessRequestSpecificationV {
    /// Whether it is what decoding gives.
    pub open spec fn valid(self) -> bool {
        match self {
            AccessRequestSpecificationV::Get(v) => v.valid(),
            AccessRequestSpecificationV::Write(v) => v.valid(),
            AccessRequestSpecificationV::Action(v) => v.valid(),
            AccessRequestSpecificationV::GetWithSelection(v) => v.valid(),
            AccessRequestSpecificationV::WriteWithSelection(v) => v.valid(),
        }
    }

    /// The same, wherever the values were found.
    pub open spec fn same(self, other: AccessRequestSpecificationV) -> bool {
        match (self, other) {
            (
                AccessRequestSpecificationV::GetWithSelection(v),
                AccessRequestSpecificationV::GetWithSelection(w),
            ) => v.same(w),
            (
                AccessRequestSpecificationV::WriteWithSelection(v),
                AccessRequestSpecificationV::WriteWithSelection(w),
            ) => v.same(w),
            _ => self == other,
        }
    }
}

proof fn lemma_access_request_specification(c: Cursor, v: AccessRequestSpecificationV)
    requires
        stands(c, v.enc()),
        v.fits(),
        v.valid(),
    ensures
        AccessRequestSpecificationV::p(c) matches Ok((w, d))
            && w.same(v)
            && d == c.adv(v.enc().len()),
{
    reveal(AccessRequestSpecificationV::enc);
    reveal(AccessRequestSpecificationV::p);
    match v {
        AccessRequestSpecificationV::Get(x) => {
            let s1 = seq![1u8];
            lemma_split(c, s1, x.enc());
            lemma_u8(c, 1u8);
            lemma_attribute_descriptor(c.adv(s1.len()), x);
        },
        AccessRequestSpecificationV::Write(x) => {
            let s1 = seq![2u8];
            lemma_split(c, s1, x.enc());
            lemma_u8(c, 2u8);
            lemma_attribute_descriptor(c.adv(s1.len()), x);
        },
        AccessRequestSpecificationV::Action(x) => {
            let s1 = seq![3u8];
            lemma_split(c, s1, x.enc());
            lemma_u8(c, 3u8);
            lemma_method_descriptor(c.adv(s1.len()), x);
        },
        AccessRequestSpecificationV::GetWithSelection(x) => {
            let s1 = seq![4u8];
            lemma_split(c, s1, x.enc());
            lemma_u8(c, 4u8);
            lemma_attribute_descriptor_with_selection(c.adv(s1.len()), x);
        },
        AccessRequestSpecificationV::WriteWithSelection(x) => {
            let s1 = seq![5u8];
            lemma_split(c, s1, x.enc());
            lemma_u8(c, 5u8);
            lemma_attribute_descriptor_with_selection(c.adv(s1.len()), x);
        },
    }
}

proof fn lemma_access_request_specification_valid(c: Cursor)
    requires
        c.wf(),
    ensures
        AccessRequestSpecificationV::p(c) matches Ok((v, d)) ==> v.valid() && d.wf(),
{
    reveal(AccessRequestSpecificationV::p);
    if let Ok((tag, c0)) = p_u8(c) {
        if tag == 1 {
            lemma_attribute_descriptor_valid(c0);
        } else if tag == 2 {
            lemma_attribute_descriptor_valid(c0);
        } else if tag == 3 {
            lemma_method_descriptor_valid(c0);
        } else if tag == 4 {
            lemma_attribute_descriptor_with_selection_valid(c0);
        } else if tag == 5 {
            lemma_attribute_descriptor_with_selection_valid(c0);
        }
    }
}

impl<'a> ReadsBack<'a> for AccessRequestSpecification<'a> {
    open spec fn valid_of(v: AccessRequestSpecificationV) -> bool {
        v.valid()
    }

    open spec fn same_of(v: AccessRequestSpecificationV, w: AccessRequestSpecificationV) -> bool {
        v.same(w)
    }

    proof fn lemma_reads_back(c: Cursor, v: AccessRequestSpecificationV) {
        assert(Self::parse(c) == AccessRequestSpecificationV::p(c));
        lemma_access_request_specification(c, v);
    }

    proof fn lemma_is_valid(c: Cursor) {
        assert(Self::parse(c) == AccessRequestSpecificationV::p(c));
        lemma_access_request_specification_valid(c);
    }
}

impl AccessResponseSpecificationV {
    /// Whether it is what decoding gives.
    pub open spec fn valid(self) -> bool {
        match self {
            AccessResponseSpecificationV::Get(v) => DataAccessResult::from_u8(v.as_u8()) == v,
            AccessResponseSpecificationV::Write(v) => DataAccessResult::from_u8(v.as_u8()) == v,
            AccessResponseSpecificationV::Action(v) => ActionResult::from_u8(v.as_u8()) == v,
        }
    }
}

proof fn lemma_access_response_specification(c: Cursor, v: AccessResponseSpecificationV)
    requires
        stands(c, v.enc()),
        v.fits(),
        v.valid(),
    ensures
        AccessResponseSpecificationV::p(c) == Ok::<(AccessResponseSpecificationV, Cursor), Error>(
            (v, c.adv(v.enc().len())),
        ),
{
    reveal(AccessResponseSpecificationV::enc);
    reveal(AccessResponseSpecificationV::p);
    match v {
        AccessResponseSpecificationV::Get(x) => {
            let s1 = seq![1u8];
            lemma_split(c, s1, seq![x.as_u8()]);
            lemma_u8(c, 1u8);
            lemma_u8(c.adv(s1.len()), x.as_u8());
        },
        AccessResponseSpecificationV::Write(x) => {
            let s1 = seq![2u8];
            lemma_split(c, s1, seq![x.as_u8()]);
            lemma_u8(c, 2u8);
            lemma_u8(c.adv(s1.len()), x.as_u8());
        },
        AccessResponseSpecificationV::Action(x) => {
            let s1 = seq![3u8];
            lemma_split(c, s1, seq![x.as_u8()]);
            lemma_u8(c, 3u8);
            lemma_u8(c.adv(s1.len()), x.as_u8());
        },
    }
}

proof fn lemma_access_response_specification_valid(c: Cursor)
    requires
        c.wf(),
    ensures
        AccessResponseSpecificationV::p(c) matches Ok((v, d)) ==> v.valid() && d.wf(),
{
    reveal(AccessResponseSpecificationV::p);
    if let Ok((tag, c0)) = p_u8(c) {
        if tag == 1 {
            lemma_codes(c0);
        } else if tag == 2 {
            lemma_codes(c0);
        } else if tag == 3 {
            lemma_codes(c0);
        }
    }
}

impl<'a> ReadsBack<'a> for AccessResponseSpecification {
    open spec fn valid_of(v: AccessResponseSpecificationV) -> bool {
        v.valid()
    }

    open spec fn same_of(v: AccessResponseSpecificationV, w: AccessResponseSpecificationV) -> bool {
        v == w
    }

    proof fn lemma_reads_back(c: Cursor, v: AccessResponseSpecificationV) {
        assert(Self::parse(c) == AccessResponseSpecificationV::p(c));
        lemma_access_response_specification(c, v);
    }

    proof fn lemma_is_valid(c: Cursor) {
        assert(Self::parse(c) == AccessResponseSpecificationV::p(c));
        lemma_access_response_specification_valid(c);
    }
}

impl AccessRequestV {
    /// Whether it is what decoding gives.
    pub open spec fn valid(self) -> bool {
        &&& valid_run::<AccessRequestSpecification<'static>>(self.specification)
        &&& valid_run::<Data<'static>>(self.data)
    }

    /// The same, wherever the values were found.
    pub open spec fn same(self, other: AccessRequestV) -> bool {
        &&& self.long_invoke_id == other.long_invoke_id
        &&& self.date_time == other.date_time
        &&& same_run::<AccessRequestSpecification<'static>>(self.specification, other.specification)
        &&& same_run::<Data<'static>>(self.data, other.data)
    }
}

proof fn lemma_access_request(c: Cursor, v: AccessRequestV)
    requires
        stands(c, v.enc()),
        v.fits(),
        v.valid(),
    ensures
        AccessRequestV::p(c) matches Ok((w, d)) && w.same(v) && d == c.adv(v.enc().len()),
{
    reveal(AccessRequestV::p);
    let s1 = v.long_invoke_id.enc();
    let s2 = s1 + v.date_time.enc();
    let s3 = s2 + enc_list::<AccessRequestSpecification<'static>>(v.specification);
    lemma_split(c, s3, enc_list::<Data<'static>>(v.data));
    lemma_split(c, s2, enc_list::<AccessRequestSpecification<'static>>(v.specification));
    lemma_split(c, s1, v.date_time.enc());
    lemma_u32(c, v.long_invoke_id.0);
    lemma_moment(c.adv(s1.len()), v.date_time);
    lemma_list::<AccessRequestSpecification<'static>>(c.adv(s2.len()), v.specification);
    lemma_list::<Data<'static>>(c.adv(s3.len()), v.data);
}

proof fn lemma_access_request_valid(c: Cursor)
    requires
        c.wf(),
    ensures
        AccessRequestV::p(c) matches Ok((v, d)) ==> v.valid() && d.wf(),
{
    reveal(AccessRequestV::p);
    if let Ok((_, c1)) = LongInvokeId::p(c) {
        if let Ok((_, c2)) = OptionalDateTime::p(c1) {
            lemma_list_valid::<AccessRequestSpecification<'static>>(c2);
            if let Ok((_, c3)) = p_list::<AccessRequestSpecification<'static>>(c2) {
                lemma_list_valid::<Data<'static>>(c3);
            }
        }
    }
}

impl VariableAccessV {
    /// Whether it is what decoding gives.
    pub open spec fn valid(self) -> bool {
        match self {
            VariableAccessV::VariableName(_) => true,
            VariableAccessV::Parameterized { parameter, .. } => parameter.valid(),
            VariableAccessV::BlockNumber(_) => true,
            VariableAccessV::ReadDataBlock { .. } => true,
            VariableAccessV::WriteDataBlock { .. } => true,
        }
    }

    /// The same, wherever the values were found.
    pub open spec fn same(self, other: VariableAccessV) -> bool {
        match (self, other) {
            (
                VariableAccessV::Parameterized { name, selector, parameter },
                VariableAccessV::Parameterized {
                    name: other_name,
                    selector: other_selector,
                    parameter: other_parameter,
                },
            ) => {
                &&& name == other_name
                &&& selector == other_selector
                &&& parameter.same(other_parameter)
            },
            _ => self == other,
        }
    }
}

proof fn lemma_variable_access(c: Cursor, v: VariableAccessV)
    requires
        stands(c, v.enc()),
        v.fits(),
        v.valid(),
    ensures
        VariableAccessV::p(c) matches Ok((w, d)) && w.same(v) && d == c.adv(v.enc().len()),
{
    reveal(VariableAccessV::enc);
    reveal(VariableAccessV::p);
    match v {
        VariableAccessV::VariableName(x) => {
            let s1 = seq![2u8];
            lemma_split(c, s1, be_bytes(x as nat, 2));
            lemma_u8(c, 2u8);
            lemma_u16(c.adv(s1.len()), x);
        },
        VariableAccessV::Parameterized { name, selector, parameter } => {
            let s1 = seq![4u8];
            let s2 = s1 + be_bytes(name as nat, 2);
            let s3 = s2 + seq![selector];
            lemma_split(c, s3, parameter.enc());
            lemma_split(c, s2, seq![selector]);
            lemma_split(c, s1, be_bytes(name as nat, 2));
            lemma_u8(c, 4u8);
            lemma_u16(c.adv(s1.len()), name);
            lemma_u8(c.adv(s2.len()), selector);
            law_data_round_trip(c.adv(s3.len()), parameter);
        },
        VariableAccessV::BlockNumber(x) => {
            let s1 = seq![5u8];
            lemma_split(c, s1, be_bytes(x as nat, 2));
            lemma_u8(c, 5u8);
            lemma_u16(c.adv(s1.len()), x);
        },
        VariableAccessV::ReadDataBlock { last_block, block_number, raw_data } => {
            let s1 = seq![6u8];
            let s2 = s1 + enc_flag(last_block);
            let s3 = s2 + be_bytes(block_number as nat, 2);
            lemma_split(c, s3, enc_prefixed(raw_data));
            lemma_split(c, s2, be_bytes(block_number as nat, 2));
            lemma_split(c, s1, enc_flag(last_block));
            lemma_u8(c, 6u8);
            lemma_flag(c.adv(s1.len()), last_block);
            lemma_u16(c.adv(s2.len()), block_number);
            law_length_prefixed_round_trip(c.adv(s3.len()), raw_data);
        },
        VariableAccessV::WriteDataBlock { last_block, block_number } => {
            let s1 = seq![7u8];
            let s2 = s1 + enc_flag(last_block);
            lemma_split(c, s2, be_bytes(block_number as nat, 2));
            lemma_split(c, s1, enc_flag(last_block));
            lemma_u8(c, 7u8);
            lemma_flag(c.adv(s1.len()), last_block);
            lemma_u16(c.adv(s2.len()), block_number);
        },
    }
}

proof fn lemma_variable_access_valid(c: Cursor)
    requires
        c.wf(),
    ensures
        VariableAccessV::p(c) matches Ok((v, d)) ==> v.valid() && d.wf(),
{
    reveal(VariableAccessV::p);
    if let Ok((tag, c0)) = p_u8(c) {
        if tag == 4 {
            if let Ok((_, c1)) = p_u16(c0) {
                if let Ok((_, c2)) = p_u8(c1) {
                    law_decoded_is_valid(c2);
                }
            }
        }
    }
}

impl<'a> ReadsBack<'a> for VariableAccess<'a> {
    open spec fn valid_of(v: VariableAccessV) -> bool {
        v.valid()
    }

    open spec fn same_of(v: VariableAccessV, w: VariableAccessV) -> bool {
        v.same(w)
    }

    proof fn lemma_reads_back(c: Cursor, v: VariableAccessV) {
        assert(Self::parse(c) == VariableAccessV::p(c));
        lemma_variable_access(c, v);
    }

    proof fn lemma_is_valid(c: Cursor) {
        assert(Self::parse(c) == VariableAccessV::p(c));
        lemma_variable_access_valid(c);
    }
}

impl ReadResultV {
    /// Whether it is what decoding gives.
    pub open spec fn valid(self) -> bool {
        match self {
            ReadResultV::Data(v) => v.valid(),
            ReadResultV::Error(v) => DataAccessResult::from_u8(v.as_u8()) == v,
            ReadResultV::Block { .. } => true,
            ReadResultV::BlockNumber(_) => true,
        }
    }

    /// The same, wherever the values were found.
    pub open spec fn same(self, other: ReadResultV) -> bool {
        match (self, other) {
            (ReadResultV::Data(v), ReadResultV::Data(w)) => v.same(w),
            _ => self == other,
        }
    }
}

proof fn lemma_read_result(c: Cursor, v: ReadResultV)
    requires
        stands(c, v.enc()),
        v.fits(),
        v.valid(),
    ensures
        ReadResultV::p(c) matches Ok((w, d)) && w.same(v) && d == c.adv(v.enc().len()),
{
    reveal(ReadResultV::enc);
    reveal(ReadResultV::p);
    match v {
        ReadResultV::Data(x) => {
            let s1 = seq![0u8];
            lemma_split(c, s1, x.enc());
            lemma_u8(c, 0u8);
            law_data_round_trip(c.adv(s1.len()), x);
        },
        ReadResultV::Error(x) => {
            let s1 = seq![1u8];
            lemma_split(c, s1, seq![x.as_u8()]);
            lemma_u8(c, 1u8);
            lemma_u8(c.adv(s1.len()), x.as_u8());
        },
        ReadResultV::Block { last_block, block_number, raw_data } => {
            let s1 = seq![2u8];
            let s2 = s1 + enc_flag(last_block);
            let s3 = s2 + be_bytes(block_number as nat, 2);
            lemma_split(c, s3, enc_prefixed(raw_data));
            lemma_split(c, s2, be_bytes(block_number as nat, 2));
            lemma_split(c, s1, enc_flag(last_block));
            lemma_u8(c, 2u8);
            lemma_flag(c.adv(s1.len()), last_block);
            lemma_u16(c.adv(s2.len()), block_number);
            law_length_prefixed_round_trip(c.adv(s3.len()), raw_data);
        },
        ReadResultV::BlockNumber(x) => {
            let s1 = seq![3u8];
            lemma_split(c, s1, be_bytes(x as nat, 2));
            lemma_u8(c, 3u8);
            lemma_u16(c.adv(s1.len()), x);
        },
    }
}

proof fn lemma_read_result_valid(c: Cursor)
    requires
        c.wf(),
    ensures
        ReadResultV::p(c) matches Ok((v, d)) ==> v.valid() && d.wf(),
{
    reveal(ReadResultV::p);
    if let Ok((tag, c0)) = p_u8(c) {
        if tag == 0 {
            law_decoded_is_valid(c0);
        } else if tag == 1 {
            lemma_codes(c0);
        }
    }
}

impl<'a> ReadsBack<'a> for ReadResult<'a> {
    open spec fn valid_of(v: ReadResultV) -> bool {
        v.valid()
    }

    open spec fn same_of(v: ReadResultV, w: ReadResultV) -> bool {
        v.same(w)
    }

    proof fn lemma_reads_back(c: Cursor, v: ReadResultV) {
        assert(Self::parse(c) == ReadResultV::p(c));
        lemma_read_result(c, v);
    }

    proof fn lemma_is_valid(c: Cursor) {
        assert(Self::parse(c) == ReadResultV::p(c));
        lemma_read_result_valid(c);
    }
}

impl WriteResultV {
    /// Whether it is what decoding gives.
    pub open spec fn valid(self) -> bool {
        match self {
            WriteResultV::Success => true,
            WriteResultV::Error(v) => DataAccessResult::from_u8(v.as_u8()) == v,
            WriteResultV::BlockNumber(_) => true,
        }
    }
}

proof fn lemma_write_result(c: Cursor, v: WriteResultV)
    requires
        stands(c, v.enc()),
        v.fits(),
        v.valid(),
    ensures
        WriteResultV::p(c) == Ok::<(WriteResultV, Cursor), Error>((v, c.adv(v.enc().len()))),
{
    reveal(WriteResultV::enc);
    reveal(WriteResultV::p);
    match v {
        WriteResultV::Success => {
            lemma_u8(c, 0u8);
        },
        WriteResultV::Error(x) => {
            let s1 = seq![1u8];
            lemma_split(c, s1, seq![x.as_u8()]);
            lemma_u8(c, 1u8);
            lemma_u8(c.adv(s1.len()), x.as_u8());
        },
        WriteResultV::BlockNumber(x) => {
            let s1 = seq![2u8];
            lemma_split(c, s1, be_bytes(x as nat, 2));
            lemma_u8(c, 2u8);
            lemma_u16(c.adv(s1.len()), x);
        },
    }
}

proof fn lemma_write_result_valid(c: Cursor)
    requires
        c.wf(),
    ensures
        WriteResultV::p(c) matches Ok((v, d)) ==> v.valid() && d.wf(),
{
    reveal(WriteResultV::p);
    if let Ok((tag, c0)) = p_u8(c) {
        if tag == 1 {
            lemma_codes(c0);
        }
    }
}

impl<'a> ReadsBack<'a> for WriteResult {
    open spec fn valid_of(v: WriteResultV) -> bool {
        v.valid()
    }

    open spec fn same_of(v: WriteResultV, w: WriteResultV) -> bool {
        v == w
    }

    proof fn lemma_reads_back(c: Cursor, v: WriteResultV) {
        assert(Self::parse(c) == WriteResultV::p(c));
        lemma_write_result(c, v);
    }

    proof fn lemma_is_valid(c: Cursor) {
        assert(Self::parse(c) == WriteResultV::p(c));
        lemma_write_result_valid(c);
    }
}

impl ReadRequestV {
    /// Whether it is what decoding gives.
    pub open spec fn valid(self) -> bool {
        valid_run::<VariableAccess<'static>>(self.specification)
    }

    /// The same, wherever the values were found.
    pub open spec fn same(self, other: ReadRequestV) -> bool {
        same_run::<VariableAccess<'static>>(self.specification, other.specification)
    }
}

proof fn lemma_read_request(c: Cursor, v: ReadRequestV)
    requires
        stands(c, v.enc()),
        v.fits(),
        v.valid(),
    ensures
        ReadRequestV::p(c) matches Ok((w, d)) && w.same(v) && d == c.adv(v.enc().len()),
{
    reveal(ReadRequestV::p);
    lemma_list::<VariableAccess<'static>>(c, v.specification);
}

proof fn lemma_read_request_valid(c: Cursor)
    requires
        c.wf(),
    ensures
        ReadRequestV::p(c) matches Ok((v, d)) ==> v.valid() && d.wf(),
{
    reveal(ReadRequestV::p);
    lemma_list_valid::<VariableAccess<'static>>(c);
}

impl ReadResponseV {
    /// Whether it is what decoding gives.
    pub open spec fn valid(self) -> bool {
        valid_run::<ReadResult<'static>>(self.results)
    }

    /// The same, wherever the values were found.
    pub open spec fn same(self, other: ReadResponseV) -> bool {
        same_run::<ReadResult<'static>>(self.results, other.results)
    }
}

proof fn lemma_read_response(c: Cursor, v: ReadResponseV)
    requires
        stands(c, v.enc()),
        v.fits(),
        v.valid(),
    ensures
        ReadResponseV::p(c) matches Ok((w, d)) && w.same(v) && d == c.adv(v.enc().len()),
{
    reveal(ReadResponseV::p);
    lemma_list::<ReadResult<'static>>(c, v.results);
}

proof fn lemma_read_response_valid(c: Cursor)
    requires
        c.wf(),
    ensures
        ReadResponseV::p(c) matches Ok((v, d)) ==> v.valid() && d.wf(),
{
    reveal(ReadResponseV::p);
    lemma_list_valid::<ReadResult<'static>>(c);
}

impl WriteRequestV {
    /// Whether it is what decoding gives.
    pub open spec fn valid(self) -> bool {
        &&& valid_run::<VariableAccess<'static>>(self.specification)
        &&& valid_run::<Data<'static>>(self.values)
    }

    /// The same, wherever the values were found.
    pub open spec fn same(self, other: WriteRequestV) -> bool {
        &&& same_run::<VariableAccess<'static>>(self.specification, other.specification)
        &&& same_run::<Data<'static>>(self.values, other.values)
    }
}

proof fn lemma_write_request(c: Cursor, v: WriteRequestV)
    requires
        stands(c, v.enc()),
        v.fits(),
        v.valid(),
    ensures
        WriteRequestV::p(c) matches Ok((w, d)) && w.same(v) && d == c.adv(v.enc().len()),
{
    reveal(WriteRequestV::p);
    let s1 = enc_list::<VariableAccess<'static>>(v.specification);
    lemma_split(c, s1, enc_list::<Data<'static>>(v.values));
    lemma_list::<VariableAccess<'static>>(c, v.specification);
    lemma_list::<Data<'static>>(c.adv(s1.len()), v.values);
}

proof fn lemma_write_request_valid(c: Cursor)
    requires
        c.wf(),
    ensures
        WriteRequestV::p(c) matches Ok((v, d)) ==> v.valid() && d.wf(),
{
    reveal(WriteRequestV::p);
    lemma_list_valid::<VariableAccess<'static>>(c);
    if let Ok((_, c1)) = p_list::<VariableAccess<'static>>(c) {
        lemma_list_valid::<Data<'static>>(c1);
    }
}

impl UnconfirmedWriteRequestV {
    /// Whether it is what decoding gives.
    pub open spec fn valid(self) -> bool {
        &&& valid_run::<VariableAccess<'static>>(self.specification)
        &&& valid_run::<Data<'static>>(self.values)
    }

    /// The same, wherever the values were found.
    pub open spec fn same(self, other: UnconfirmedWriteRequestV) -> bool {
        &&& same_run::<VariableAccess<'static>>(self.specification, other.specification)
        &&& same_run::<Data<'static>>(self.values, other.values)
    }
}

proof fn lemma_unconfirmed_write_request(c: Cursor, v: UnconfirmedWriteRequestV)
    requires
        stands(c, v.enc()),
        v.fits(),
        v.valid(),
    ensures
        UnconfirmedWriteRequestV::p(c) matches Ok((w, d)) && w.same(v) && d == c.adv(v.enc().len()),
{
    reveal(UnconfirmedWriteRequestV::p);
    let s1 = enc_list::<VariableAccess<'static>>(v.specification);
    lemma_split(c, s1, enc_list::<Data<'static>>(v.values));
    lemma_list::<VariableAccess<'static>>(c, v.specification);
    lemma_list::<Data<'static>>(c.adv(s1.len()), v.values);
}

proof fn lemma_unconfirmed_write_request_valid(c: Cursor)
    requires
        c.wf(),
    ensures
        UnconfirmedWriteRequestV::p(c) matches Ok((v, d)) ==> v.valid() && d.wf(),
{
    reveal(UnconfirmedWriteRequestV::p);
    lemma_list_valid::<VariableAccess<'static>>(c);
    if let Ok((_, c1)) = p_list::<VariableAccess<'static>>(c) {
        lemma_list_valid::<Data<'static>>(c1);
    }
}

impl WriteResponseV {
    /// Whether it is what decoding gives.
    pub open spec fn valid(self) -> bool {
        valid_run::<WriteResult>(self.results)
    }

    /// The same, wherever the values were found.
    pub open spec fn same(self, other: WriteResponseV) -> bool {
        same_run::<WriteResult>(self.results, other.results)
    }
}

proof fn lemma_write_response(c: Cursor, v: WriteResponseV)
    requires
        stands(c, v.enc()),
        v.fits(),
        v.valid(),
    ensures
        WriteResponseV::p(c) matches Ok((w, d)) && w.same(v) && d == c.adv(v.enc().len()),
{
    reveal(WriteResponseV::p);
    lemma_list::<WriteResult>(c, v.results);
}

proof fn lemma_write_response_valid(c: Cursor)
    requires
        c.wf(),
    ensures
        WriteResponseV::p(c) matches Ok((v, d)) ==> v.valid() && d.wf(),
{
    reveal(WriteResponseV::p);
    lemma_list_valid::<WriteResult>(c);
}

impl DataNotificationV {
    /// Whether it is what decoding gives.
    pub open spec fn valid(self) -> bool {
        self.body.valid()
    }

    /// The same, wherever the values were found.
    pub open spec fn same(self, other: DataNotificationV) -> bool {
        &&& self.long_invoke_id == other.long_invoke_id
        &&& self.date_time == other.date_time
        &&& self.body.same(other.body)
    }
}

pub proof fn lemma_data_notification(c: Cursor, v: DataNotificationV)
    requires
        stands(c, v.enc()),
        v.fits(),
        v.valid(),
    ensures
        DataNotificationV::p(c) matches Ok((w, d)) && w.same(v) && d == c.adv(v.enc().len()),
{
    reveal(DataNotificationV::p);
    let s1 = v.long_invoke_id.enc();
    let s2 = s1 + v.date_time.enc();
    lemma_split(c, s2, v.body.enc());
    lemma_split(c, s1, v.date_time.enc());
    lemma_u32(c, v.long_invoke_id.0);
    lemma_moment(c.adv(s1.len()), v.date_time);
    law_data_round_trip(c.adv(s2.len()), v.body);
}

proof fn lemma_data_notification_valid(c: Cursor)
    requires
        c.wf(),
    ensures
        DataNotificationV::p(c) matches Ok((v, d)) ==> v.valid() && d.wf(),
{
    reveal(DataNotificationV::p);
    if let Ok((_, c1)) = LongInvokeId::p(c) {
        if let Ok((_, c2)) = OptionalDateTime::p(c1) {
            law_decoded_is_valid(c2);
        }
    }
}

/// Whether every echoed operation is what decoding gives.
pub open spec fn valid_echo(o: Option<Seq<AccessRequestSpecificationV>>) -> bool {
    match o {
        Some(s) => valid_run::<AccessRequestSpecification<'static>>(s),
        None => true,
    }
}

/// The same operations echoed, or none in both.
pub open spec fn same_echo(
    a: Option<Seq<AccessRequestSpecificationV>>,
    b: Option<Seq<AccessRequestSpecificationV>>,
) -> bool {
    match (a, b) {
        (Some(s), Some(t)) => same_run::<AccessRequestSpecification<'static>>(s, t),
        (None, None) => true,
        _ => false,
    }
}

proof fn lemma_echo(c: Cursor, o: Option<Seq<AccessRequestSpecificationV>>)
    requires
        stands(c, enc_echo(o)),
        fits_echo(o),
        valid_echo(o),
    ensures
        p_echo(c) matches Ok((w, d)) && same_echo(w, o) && d == c.adv(enc_echo(o).len()),
{
    match o {
        None => {
            lemma_u8(c, 0);
        },
        Some(s) => {
            lemma_split(c, seq![1u8], enc_list::<AccessRequestSpecification<'static>>(s));
            lemma_u8(c, 1);
            lemma_list::<AccessRequestSpecification<'static>>(c.adv(1), s);
        },
    }
}

proof fn lemma_echo_valid(c: Cursor)
    requires
        c.wf(),
    ensures
        p_echo(c) matches Ok((v, d)) ==> valid_echo(v) && d.wf(),
{
    if let Ok((_, c1)) = p_u8(c) {
        lemma_list_valid::<AccessRequestSpecification<'static>>(c1);
    }
}

impl AccessResponseV {
    /// Whether it is what decoding gives.
    pub open spec fn valid(self) -> bool {
        &&& valid_echo(self.request_specification)
        &&& valid_run::<Data<'static>>(self.data)
        &&& valid_run::<AccessResponseSpecification>(self.response_specification)
    }

    /// The same, wherever the values were found.
    pub open spec fn same(self, other: AccessResponseV) -> bool {
        &&& self.long_invoke_id == other.long_invoke_id
        &&& self.date_time == other.date_time
        &&& same_echo(self.request_specification, other.request_specification)
        &&& same_run::<Data<'static>>(self.data, other.data)
        &&& same_run::<AccessResponseSpecification>(self.response_specification, other.response_specification)
    }
}

proof fn lemma_access_response(c: Cursor, v: AccessResponseV)
    requires
        stands(c, v.enc()),
        v.fits(),
        v.valid(),
    ensures
        AccessResponseV::p(c) matches Ok((w, d)) && w.same(v) && d == c.adv(v.enc().len()),
{
    reveal(AccessResponseV::p);
    let s1 = v.long_invoke_id.enc();
    let s2 = s1 + v.date_time.enc();
    let s3 = s2 + enc_echo(v.request_specification);
    let s4 = s3 + enc_list::<Data<'static>>(v.data);
    lemma_split(c, s4, enc_list::<AccessResponseSpecification>(v.response_specification));
    lemma_split(c, s3, enc_list::<Data<'static>>(v.data));
    lemma_split(c, s2, enc_echo(v.request_specification));
    lemma_split(c, s1, v.date_time.enc());
    lemma_u32(c, v.long_invoke_id.0);
    lemma_moment(c.adv(s1.len()), v.date_time);
    lemma_echo(c.adv(s2.len()), v.request_specification);
    lemma_list::<Data<'static>>(c.adv(s3.len()), v.data);
    lemma_list::<AccessResponseSpecification>(c.adv(s4.len()), v.response_specification);
}

proof fn lemma_access_response_valid(c: Cursor)
    requires
        c.wf(),
    ensures
        AccessResponseV::p(c) matches Ok((v, d)) ==> v.valid() && d.wf(),
{
    reveal(AccessResponseV::p);
    if let Ok((_, c1)) = LongInvokeId::p(c) {
        if let Ok((_, c2)) = OptionalDateTime::p(c1) {
            lemma_echo_valid(c2);
            if let Ok((_, c3)) = p_echo(c2) {
                lemma_list_valid::<Data<'static>>(c3);
                if let Ok((_, c4)) = p_list::<Data<'static>>(c3) {
                    lemma_list_valid::<AccessResponseSpecification>(c4);
                }
            }
        }
    }
}

impl ExceptionResponse {
    /// Whether it is what decoding gives: a counter is there exactly where the service error
    /// is about the counter.
    pub open spec fn valid(self) -> bool {
        &&& StateError::from_u8(self.state_error.as_u8()) == self.state_error
        &&& ServiceError::from_u8(self.service_error.as_u8()) == self.service_error
        &&& self.expected_invocation_counter is Some == self.service_error is InvocationCounterError
    }
}

proof fn lemma_exception(c: Cursor, v: ExceptionResponse)
    requires
        stands(c, v.enc()),
        v.valid(),
    ensures
        ExceptionResponse::p(c) == Ok::<(ExceptionResponse, Cursor), Error>(
            (v, c.adv(v.enc().len())),
        ),
{
    let a = seq![v.state_error.as_u8()];
    let b = seq![v.service_error.as_u8()];
    let t = match v.expected_invocation_counter {
        Some(n) => be_bytes(n as nat, 4),
        None => Seq::empty(),
    };
    assert(v.enc() =~= a + b + t);
    lemma_split(c, a + b, t);
    lemma_split(c, a, b);
    lemma_u8(c, v.state_error.as_u8());
    lemma_u8(c.adv(1), v.service_error.as_u8());
    match v.expected_invocation_counter {
        Some(n) => {
            lemma_u32(c.adv((a + b).len()), n);
        },
        None => {
            assert(c.adv((a + b).len()).adv(0) =~= c.adv((a + b).len()));
        },
    }
}

impl ApduV {
    /// Whether it is what decoding gives.
    pub open spec fn valid(self) -> bool {
        match self {
            ApduV::ReadRequest(v) => v.valid(),
            ApduV::WriteRequest(v) => v.valid(),
            ApduV::ReadResponse(v) => v.valid(),
            ApduV::WriteResponse(v) => v.valid(),
            ApduV::DataNotification(v) => v.valid(),
            ApduV::UnconfirmedWriteRequest(v) => v.valid(),
            ApduV::GetRequest(v) => v.valid(),
            ApduV::SetRequest(v) => v.valid(),
            ApduV::ActionRequest(v) => v.valid(),
            ApduV::GetResponse(v) => v.valid(),
            ApduV::SetResponse(v) => v.valid(),
            ApduV::ActionResponse(v) => v.valid(),
            ApduV::AccessRequest(v) => v.valid(),
            ApduV::AccessResponse(v) => v.valid(),
            ApduV::ExceptionResponse(v) => v.valid(),
            ApduV::Rlre(v) => v.canonical(),
            ApduV::Ciphered { protection, service, .. } => ciphered_of(
                service,
                protection,
            ) is Some,
        }
    }

    /// The same, wherever the values were found.
    pub open spec fn same(self, other: ApduV) -> bool {
        match (self, other) {
            (ApduV::ReadRequest(v), ApduV::ReadRequest(w)) => v.same(w),
            (ApduV::WriteRequest(v), ApduV::WriteRequest(w)) => v.same(w),
            (ApduV::ReadResponse(v), ApduV::ReadResponse(w)) => v.same(w),
            (ApduV::WriteResponse(v), ApduV::WriteResponse(w)) => v.same(w),
            (ApduV::DataNotification(v), ApduV::DataNotification(w)) => v.same(w),
            (ApduV::UnconfirmedWriteRequest(v), ApduV::UnconfirmedWriteRequest(w)) => v.same(w),
            (ApduV::GetRequest(v), ApduV::GetRequest(w)) => v.same(w),
            (ApduV::SetRequest(v), ApduV::SetRequest(w)) => v.same(w),
            (ApduV::ActionRequest(v), ApduV::ActionRequest(w)) => v.same(w),
            (ApduV::GetResponse(v), ApduV::GetResponse(w)) => v.same(w),
            (ApduV::SetResponse(v), ApduV::SetResponse(w)) => v.same(w),
            (ApduV::ActionResponse(v), ApduV::ActionResponse(w)) => v.same(w),
            (ApduV::AccessRequest(v), ApduV::AccessRequest(w)) => v.same(w),
            (ApduV::AccessResponse(v), ApduV::AccessResponse(w)) => v.same(w),
            _ => self == other,
        }
    }

    /// Its encoding decodes, to the last byte, and to the same.
    pub open spec fn reads_back(self) -> bool {
        ApduV::p(Cursor::start(self.enc())) matches Ok((w, d)) && w.same(self) && d.left() == 0
    }
}

/// A ciphered tag is told from the tag of every plain service.
proof fn lemma_ciphered_tag(protection: Protection, service: ApduTag)
    requires
        ciphered_of(service, protection) is Some,
    ensures
        ({
            let tag = ciphered_of(service, protection)->0.code();
            &&& ciphered_tag(tag) == Some((protection, service))
            &&& !is_plain_tag(tag)
        }),
{
    let t = ciphered_of(service, protection)->0;
    law_tag_round_trip(t, 0);
    law_ciphered_tags(service, protection);
    reveal(plain_of);
}

/// Whether a byte is the tag of a plain service.
spec fn is_plain_tag(b: u8) -> bool {
    b == 0x05 || b == 0x06 || b == 0x0C || b == 0x0D || b == 0x0F || b == 0x16 || b == 0xC0 || b
        == 0xC1 || b == 0xC3 || b == 0xC4 || b == 0xC5 || b == 0xC7 || b == 0xD9 || b == 0xDA || b
        == 0xD8 || b == 0x63
}

/// An APDU that decoding can give reads back from its encoding, whole, and as what it was:
/// the encoder loses no field.
pub proof fn law_apdu_round_trip(v: ApduV)
    requires
        v.fits(),
        v.valid(),
    ensures
        v.reads_back(),
{
    reveal(ApduV::enc);
    reveal(ApduV::p);
    let c = Cursor::start(v.enc());
    assert(c.peek(v.enc().len()) =~= v.enc());
    assert(stands(c, v.enc()));
    match v {
        ApduV::ReadRequest(x) => {
            lemma_split(c, seq![0x05u8], x.enc());
            lemma_u8(c, 0x05);
            lemma_read_request(c.adv(1), x);
        },
        ApduV::WriteRequest(x) => {
            lemma_split(c, seq![0x06u8], x.enc());
            lemma_u8(c, 0x06);
            lemma_write_request(c.adv(1), x);
        },
        ApduV::ReadResponse(x) => {
            lemma_split(c, seq![0x0Cu8], x.enc());
            lemma_u8(c, 0x0C);
            lemma_read_response(c.adv(1), x);
        },
        ApduV::WriteResponse(x) => {
            lemma_split(c, seq![0x0Du8], x.enc());
            lemma_u8(c, 0x0D);
            lemma_write_response(c.adv(1), x);
        },
        ApduV::DataNotification(x) => {
            lemma_split(c, seq![0x0Fu8], x.enc());
            lemma_u8(c, 0x0F);
            lemma_data_notification(c.adv(1), x);
        },
        ApduV::UnconfirmedWriteRequest(x) => {
            lemma_split(c, seq![0x16u8], x.enc());
            lemma_u8(c, 0x16);
            lemma_unconfirmed_write_request(c.adv(1), x);
        },
        ApduV::GetRequest(x) => {
            lemma_split(c, seq![0xC0u8], x.enc());
            lemma_u8(c, 0xC0);
            lemma_get_request(c.adv(1), x);
        },
        ApduV::SetRequest(x) => {
            lemma_split(c, seq![0xC1u8], x.enc());
            lemma_u8(c, 0xC1);
            lemma_set_request(c.adv(1), x);
        },
        ApduV::ActionRequest(x) => {
            lemma_split(c, seq![0xC3u8], x.enc());
            lemma_u8(c, 0xC3);
            lemma_action_request(c.adv(1), x);
        },
        ApduV::GetResponse(x) => {
            lemma_split(c, seq![0xC4u8], x.enc());
            lemma_u8(c, 0xC4);
            lemma_get_response(c.adv(1), x);
        },
        ApduV::SetResponse(x) => {
            lemma_split(c, seq![0xC5u8], x.enc());
            lemma_u8(c, 0xC5);
            lemma_set_response(c.adv(1), x);
        },
        ApduV::ActionResponse(x) => {
            lemma_split(c, seq![0xC7u8], x.enc());
            lemma_u8(c, 0xC7);
            lemma_action_response(c.adv(1), x);
        },
        ApduV::AccessRequest(x) => {
            lemma_split(c, seq![0xD9u8], x.enc());
            lemma_u8(c, 0xD9);
            lemma_access_request(c.adv(1), x);
        },
        ApduV::AccessResponse(x) => {
            lemma_split(c, seq![0xDAu8], x.enc());
            lemma_u8(c, 0xDA);
            lemma_access_response(c.adv(1), x);
        },
        ApduV::ExceptionResponse(x) => {
            lemma_split(c, seq![0xD8u8], x.enc());
            lemma_u8(c, 0xD8);
            lemma_exception(c.adv(1), x);
        },
        ApduV::Rlre(x) => {
            law_release_round_trip(c, 0x63, x);
            assert(c.buf[0] == 0x63);
        },
        ApduV::Ciphered { protection, service, body } => {
            let t = ciphered_of(service, protection)->0;
            lemma_split(c, seq![t.code()], body.enc());
            lemma_u8(c, t.code());
            lemma_ciphered_tag(protection, service);
            law_ciphered_service_round_trip(c.adv(1), body);
        },
    }
}

/// Whatever decodes is valid, so that if it is encoded again, what was encoded decodes to
/// the same APDU.
pub proof fn law_decoded_apdu_round_trips(c: Cursor)
    requires
        c.wf(),
    ensures
        ApduV::p(c) matches Ok((v, _)) ==> v.valid() && (v.fits() ==> v.reads_back()),
{
    lemma_apdu_valid(c);
    if let Ok((v, _)) = ApduV::p(c) {
        if v.fits() {
            law_apdu_round_trip(v);
        }
    }
}

proof fn lemma_apdu_valid(c: Cursor)
    requires
        c.wf(),
    ensures
        ApduV::p(c) matches Ok((v, _)) ==> v.valid(),
{
    reveal(ApduV::p);
    if let Ok((tag, d)) = p_u8(c) {
        if tag == 0x05 {
            lemma_read_request_valid(d);
        } else if tag == 0x06 {
            lemma_write_request_valid(d);
        } else if tag == 0x0C {
            lemma_read_response_valid(d);
        } else if tag == 0x0D {
            lemma_write_response_valid(d);
        } else if tag == 0x0F {
            lemma_data_notification_valid(d);
        } else if tag == 0x16 {
            lemma_unconfirmed_write_request_valid(d);
        } else if tag == 0xC0 {
            lemma_get_request_valid(d);
        } else if tag == 0xC1 {
            lemma_set_request_valid(d);
        } else if tag == 0xC3 {
            lemma_action_request_valid(d);
        } else if tag == 0xC4 {
            lemma_get_response_valid(d);
        } else if tag == 0xC5 {
            lemma_set_response_valid(d);
        } else if tag == 0xC7 {
            lemma_action_response_valid(d);
        } else if tag == 0xD9 {
            lemma_access_request_valid(d);
        } else if tag == 0xDA {
            lemma_access_response_valid(d);
        }
        if let Some((protection, service)) = ciphered_tag(tag) {
            law_ciphered_tags(tag_of(tag)->0, protection);
        }
        lemma_codes(d);
        if let Ok((_, f)) = StateError::p(d) {
            lemma_codes(f);
        }
        if let Ok((t, _)) = p_tlv(c) {
            lemma_release_canonical(t.start(), ReleaseV::blank());
        }
    }
}

proof fn lemma_opt_octets(c: Cursor, o: Option<Seq<u8>>)
    requires
        stands(c, enc_opt_octets(o)),
        o matches Some(s) ==> length_fits(s.len()),
    ensures
        p_opt_octets(c) == Ok::<(Option<Seq<u8>>, Cursor), Error>(
            (o, c.adv(enc_opt_octets(o).len())),
        ),
{
    match o {
        None => {
            lemma_u8(c, 0);
        },
        Some(s) => {
            lemma_split(c, seq![1u8], enc_prefixed(s));
            lemma_u8(c, 1);
            law_length_prefixed_round_trip(c.adv(1), s);
        },
    }
}

proof fn lemma_opt_i8(c: Cursor, o: Option<i8>)
    requires
        stands(c, enc_opt_i8(o)),
    ensures
        p_opt_i8(c) == Ok::<(Option<i8>, Cursor), Error>((o, c.adv(enc_opt_i8(o).len()))),
{
    match o {
        None => {
            lemma_u8(c, 0);
        },
        Some(v) => {
            assert(enc_opt_i8(o) =~= seq![1u8] + seq![v as u8]);
            lemma_split(c, seq![1u8], seq![v as u8]);
            lemma_u8(c, 1);
            lemma_i8(c.adv(1), v);
        },
    }
}

proof fn lemma_default_true(c: Cursor, b: bool)
    requires
        stands(c, enc_default_true(b)),
    ensures
        p_default_true(c) == Ok::<(bool, Cursor), Error>((b, c.adv(enc_default_true(b).len()))),
{
    if b {
        lemma_u8(c, 0);
    } else {
        assert(enc_default_true(b) =~= seq![1u8] + enc_flag(false));
        lemma_split(c, seq![1u8], enc_flag(false));
        lemma_u8(c, 1);
        lemma_flag(c.adv(1), false);
    }
}

proof fn lemma_conformance(c: Cursor, v: Conformance)
    requires
        stands(c, v.enc()),
        v.0 <= 0x00FF_FFFF,
    ensures
        Conformance::p(c) == Ok::<(Conformance, Cursor), Error>((v, c.adv(v.enc().len()))),
{
    let head = seq![0x5Fu8, 0x1F, 0x04, 0x00];
    lemma_pow256();
    lemma_be_bytes_len(v.0 as nat, 3);
    lemma_be_roundtrip(v.0 as nat, 3);
    lemma_split(c, head, be_bytes(v.0 as nat, 3));
}

/// What the client proposes reads back from its encoding, so long as the conformance has
/// no flag beyond the twenty-four that are sent.
#[verifier::rlimit(60)]
pub proof fn law_initiate_request_round_trip(v: InitiateRequestV)
    requires
        v.fits(),
        v.proposed_conformance.0 <= 0x00FF_FFFF,
    ensures
        InitiateRequestV::p(Cursor::start(v.enc())) matches Ok((w, d)) && w == v && d.left() == 0,
{
    let c = Cursor::start(v.enc());
    assert(c.peek(v.enc().len()) =~= v.enc());
    let s1 = enc_opt_octets(v.dedicated_key);
    let s2 = s1 + enc_default_true(v.response_allowed);
    let s3 = s2 + enc_opt_i8(v.proposed_quality_of_service);
    let s4 = s3 + seq![v.proposed_dlms_version];
    let s5 = s4 + v.proposed_conformance.enc();
    lemma_split(c, s5, be_bytes(v.client_max_receive_pdu_size as nat, 2));
    lemma_split(c, s4, v.proposed_conformance.enc());
    lemma_split(c, s3, seq![v.proposed_dlms_version]);
    lemma_split(c, s2, enc_opt_i8(v.proposed_quality_of_service));
    lemma_split(c, s1, enc_default_true(v.response_allowed));
    lemma_opt_octets(c, v.dedicated_key);
    lemma_default_true(c.adv(s1.len()), v.response_allowed);
    lemma_opt_i8(c.adv(s2.len()), v.proposed_quality_of_service);
    lemma_u8(c.adv(s3.len()), v.proposed_dlms_version);
    lemma_conformance(c.adv(s4.len()), v.proposed_conformance);
    lemma_u16(c.adv(s5.len()), v.client_max_receive_pdu_size);
}

/// What the server agrees to reads back from its encoding, so long as the conformance has
/// no flag beyond the twenty-four that are sent.
#[verifier::rlimit(60)]
pub proof fn law_initiate_response_round_trip(v: InitiateResponseV)
    requires
        v.negotiated_conformance.0 <= 0x00FF_FFFF,
    ensures
        InitiateResponseV::p(Cursor::start(v.enc())) matches Ok((w, d)) && w == v && d.left() == 0,
{
    let c = Cursor::start(v.enc());
    assert(c.peek(v.enc().len()) =~= v.enc());
    let s1 = enc_opt_i8(v.negotiated_quality_of_service);
    let s2 = s1 + seq![v.negotiated_dlms_version];
    let s3 = s2 + v.negotiated_conformance.enc();
    let s4 = s3 + be_bytes(v.server_max_receive_pdu_size as nat, 2);
    lemma_split(c, s4, be_bytes(v.vaa_name as nat, 2));
    lemma_split(c, s3, be_bytes(v.server_max_receive_pdu_size as nat, 2));
    lemma_split(c, s2, v.negotiated_conformance.enc());
    lemma_split(c, s1, seq![v.negotiated_dlms_version]);
    lemma_opt_i8(c, v.negotiated_quality_of_service);
    lemma_u8(c.adv(s1.len()), v.negotiated_dlms_version);
    lemma_conformance(c.adv(s2.len()), v.negotiated_conformance);
    lemma_u16(c.adv(s3.len()), v.server_max_receive_pdu_size);
    lemma_u16(c.adv(s4.len()), v.vaa_name);
}

} // verus!
