//! Access rights, in both of the shapes they have been given.
//!
//! Version 3 of Association LN replaced the version 0–2 enumerations with bit strings,
//! and added flags for whether a request or a response must be authenticated, encrypted
//! or digitally signed. A client that reads a version 3 object list as though it were
//! version 2 sees "write only" where the meter said "read, authenticated response".

use vstd::prelude::*;

use crate::axdr::data::Data;
use crate::codec::{Error, ErrorKind, Result};
use crate::obis::Obis;
#[allow(unused_imports)]
use crate::axdr::data::{p_data, prepend, DataV, SeqV};
#[allow(unused_imports)]
use crate::codec::Cursor;

verus! {

/// Version 3 attribute access, as a bit string.
#[derive(Debug, Clone, Copy, PartialEq, Eq, Structural)]
pub struct AttributeAccess(pub u8);

impl Default for AttributeAccess {
    fn default() -> (r: Self)
        ensures
            r == AttributeAccess::empty(),
    {
        AttributeAccess(0)
    }
}

#[allow(non_snake_case)]
impl AttributeAccess {
    /// The attribute may be read.
    #[must_use]
    #[verifier::allow_in_spec]
    pub fn READ() -> Self
        returns
            AttributeAccess(0x01),
    {
        AttributeAccess(0x01)
    }

    /// The attribute may be written.
    #[must_use]
    #[verifier::allow_in_spec]
    pub fn WRITE() -> Self
        returns
            AttributeAccess(0x02),
    {
        AttributeAccess(0x02)
    }

    /// A request must be authenticated.
    #[must_use]
    #[verifier::allow_in_spec]
    pub fn AUTHENTICATED_REQUEST() -> Self
        returns
            AttributeAccess(0x04),
    {
        AttributeAccess(0x04)
    }

    /// A request must be encrypted.
    #[must_use]
    #[verifier::allow_in_spec]
    pub fn ENCRYPTED_REQUEST() -> Self
        returns
            AttributeAccess(0x08),
    {
        AttributeAccess(0x08)
    }

    /// A request must be digitally signed.
    #[must_use]
    #[verifier::allow_in_spec]
    pub fn DIGITALLY_SIGNED_REQUEST() -> Self
        returns
            AttributeAccess(0x10),
    {
        AttributeAccess(0x10)
    }

    /// The response will be authenticated.
    #[must_use]
    #[verifier::allow_in_spec]
    pub fn AUTHENTICATED_RESPONSE() -> Self
        returns
            AttributeAccess(0x20),
    {
        AttributeAccess(0x20)
    }

    /// The response will be encrypted.
    #[must_use]
    #[verifier::allow_in_spec]
    pub fn ENCRYPTED_RESPONSE() -> Self
        returns
            AttributeAccess(0x40),
    {
        AttributeAccess(0x40)
    }

    /// The response will be digitally signed.
    #[must_use]
    #[verifier::allow_in_spec]
    pub fn DIGITALLY_SIGNED_RESPONSE() -> Self
        returns
            AttributeAccess(0x80),
    {
        AttributeAccess(0x80)
    }
}

impl AttributeAccess {
    /// No flag at all.
    #[must_use]
    #[verifier::allow_in_spec]
    pub fn empty() -> Self
        returns
            AttributeAccess(0),
    {
        AttributeAccess(0)
    }

    /// The flags as the byte that holds them.
    #[must_use]
    #[verifier::allow_in_spec]
    pub fn bits(self) -> u8
        returns
            self.0,
    {
        self.0
    }

    /// The flags that a byte sets, leaving out the bits that are none.
    #[must_use]
    #[verifier::allow_in_spec]
    pub fn from_bits_truncate(bits: u8) -> Self
        returns
            AttributeAccess(bits & 0xFF),
    {
        AttributeAccess(bits & 0xFF)
    }

    /// True when every flag of `other` is set.
    #[must_use]
    #[verifier::allow_in_spec]
    pub fn contains(self, other: Self) -> bool
        returns
            self.0 & other.0 == other.0,
    {
        self.0 & other.0 == other.0
    }

    /// True when any flag of `other` is set.
    #[must_use]
    #[verifier::allow_in_spec]
    pub fn intersects(self, other: Self) -> bool
        returns
            self.0 & other.0 != 0,
    {
        self.0 & other.0 != 0
    }

    /// The flags of both.
    #[must_use]
    #[verifier::allow_in_spec]
    pub fn union(self, other: Self) -> Self
        returns
            AttributeAccess(self.0 | other.0),
    {
        AttributeAccess(self.0 | other.0)
    }

    /// The version 0–2 enumeration as version 3 flags.
    #[must_use]
    #[verifier::allow_in_spec]
    pub fn from_legacy(mode: u8) -> Self
        returns
            (match mode {
                1 => Self::READ(),
                2 => Self::WRITE(),
                3 => Self::READ().union(Self::WRITE()),
                4 => Self::READ().union(Self::AUTHENTICATED_REQUEST()),
                5 => Self::WRITE().union(Self::AUTHENTICATED_REQUEST()),
                6 => Self::READ().union(Self::WRITE()).union(Self::AUTHENTICATED_REQUEST()),
                _ => Self::empty(),
            }),
    {
        match mode {
            1 => Self::READ(),
            2 => Self::WRITE(),
            3 => Self::READ().union(Self::WRITE()),
            4 => Self::READ().union(Self::AUTHENTICATED_REQUEST()),
            5 => Self::WRITE().union(Self::AUTHENTICATED_REQUEST()),
            6 => Self::READ().union(Self::WRITE()).union(Self::AUTHENTICATED_REQUEST()),
            _ => Self::empty(),
        }
    }

    /// True when the attribute can be read at all.
    #[must_use]
    #[verifier::allow_in_spec]
    pub fn can_read(self) -> bool
        returns
            self.contains(Self::READ()),
    {
        self.contains(Self::READ())
    }

    /// True when the attribute can be written at all.
    #[must_use]
    #[verifier::allow_in_spec]
    pub fn can_write(self) -> bool
        returns
            self.contains(Self::WRITE()),
    {
        self.contains(Self::WRITE())
    }

    /// True when a request for this attribute must be protected somehow.
    #[must_use]
    #[verifier::allow_in_spec]
    pub fn requires_protection(self) -> bool
        returns
            self.intersects(
                Self::AUTHENTICATED_REQUEST().union(Self::ENCRYPTED_REQUEST()).union(
                    Self::DIGITALLY_SIGNED_REQUEST(),
                ),
            ),
    {
        self.intersects(
            Self::AUTHENTICATED_REQUEST().union(Self::ENCRYPTED_REQUEST()).union(
                Self::DIGITALLY_SIGNED_REQUEST(),
            ),
        )
    }
}

/// Version 3 method access, as a bit string.
#[derive(Debug, Clone, Copy, PartialEq, Eq, Structural)]
pub struct MethodAccess(pub u8);

impl Default for MethodAccess {
    fn default() -> (r: Self)
        ensures
            r == MethodAccess::empty(),
    {
        MethodAccess(0)
    }
}

#[allow(non_snake_case)]
impl MethodAccess {
    /// The method may be invoked.
    #[must_use]
    #[verifier::allow_in_spec]
    pub fn ACCESS() -> Self
        returns
            MethodAccess(0x01),
    {
        MethodAccess(0x01)
    }

    /// A request must be authenticated.
    #[must_use]
    #[verifier::allow_in_spec]
    pub fn AUTHENTICATED_REQUEST() -> Self
        returns
            MethodAccess(0x04),
    {
        MethodAccess(0x04)
    }

    /// A request must be encrypted.
    #[must_use]
    #[verifier::allow_in_spec]
    pub fn ENCRYPTED_REQUEST() -> Self
        returns
            MethodAccess(0x08),
    {
        MethodAccess(0x08)
    }

    /// A request must be digitally signed.
    #[must_use]
    #[verifier::allow_in_spec]
    pub fn DIGITALLY_SIGNED_REQUEST() -> Self
        returns
            MethodAccess(0x10),
    {
        MethodAccess(0x10)
    }

    /// The response will be authenticated.
    #[must_use]
    #[verifier::allow_in_spec]
    pub fn AUTHENTICATED_RESPONSE() -> Self
        returns
            MethodAccess(0x20),
    {
        MethodAccess(0x20)
    }

    /// The response will be encrypted.
    #[must_use]
    #[verifier::allow_in_spec]
    pub fn ENCRYPTED_RESPONSE() -> Self
        returns
            MethodAccess(0x40),
    {
        MethodAccess(0x40)
    }

    /// The response will be digitally signed.
    #[must_use]
    #[verifier::allow_in_spec]
    pub fn DIGITALLY_SIGNED_RESPONSE() -> Self
        returns
            MethodAccess(0x80),
    {
        MethodAccess(0x80)
    }
}

impl MethodAccess {
    /// No flag at all.
    #[must_use]
    #[verifier::allow_in_spec]
    pub fn empty() -> Self
        returns
            MethodAccess(0),
    {
        MethodAccess(0)
    }

    /// The flags as the byte that holds them.
    #[must_use]
    #[verifier::allow_in_spec]
    pub fn bits(self) -> u8
        returns
            self.0,
    {
        self.0
    }

    /// The flags that a byte sets, leaving out the bits that are none.
    #[must_use]
    #[verifier::allow_in_spec]
    pub fn from_bits_truncate(bits: u8) -> Self
        returns
            MethodAccess(bits & 0xFD),
    {
        MethodAccess(bits & 0xFD)
    }

    /// True when every flag of `other` is set.
    #[must_use]
    #[verifier::allow_in_spec]
    pub fn contains(self, other: Self) -> bool
        returns
            self.0 & other.0 == other.0,
    {
        self.0 & other.0 == other.0
    }

    /// True when any flag of `other` is set.
    #[must_use]
    #[verifier::allow_in_spec]
    pub fn intersects(self, other: Self) -> bool
        returns
            self.0 & other.0 != 0,
    {
        self.0 & other.0 != 0
    }

    /// The flags of both.
    #[must_use]
    #[verifier::allow_in_spec]
    pub fn union(self, other: Self) -> Self
        returns
            MethodAccess(self.0 | other.0),
    {
        MethodAccess(self.0 | other.0)
    }

    /// The version 0–2 enumeration as version 3 flags.
    #[must_use]
    #[verifier::allow_in_spec]
    pub fn from_legacy(mode: u8) -> Self
        returns
            (match mode {
                1 => Self::ACCESS(),
                2 => Self::ACCESS().union(Self::AUTHENTICATED_REQUEST()),
                _ => Self::empty(),
            }),
    {
        match mode {
            1 => Self::ACCESS(),
            2 => Self::ACCESS().union(Self::AUTHENTICATED_REQUEST()),
            _ => Self::empty(),
        }
    }

    /// True when the method can be invoked at all.
    #[must_use]
    #[verifier::allow_in_spec]
    pub fn can_invoke(self) -> bool
        returns
            self.contains(Self::ACCESS()),
    {
        self.contains(Self::ACCESS())
    }
}

/// Which version of Association LN an object list came from.
///
/// It decides how the access rights inside it are encoded, and it is not guessable from
/// the bytes: a single byte is a legacy enumeration in version 2 and a one-byte bit
/// string in version 3, and both are legal.
#[derive(Debug, Clone, Copy, PartialEq, Eq, Structural)]
pub enum AssociationVersion {
    /// Versions 0 to 2: access modes are enumerations.
    Legacy,
    /// Version 3: access modes are bit strings.
    V3,
}

/// One attribute's rights.
#[derive(Debug, Clone, Copy, PartialEq, Eq, Structural)]
pub struct AttributeRight {
    /// Which attribute.
    pub attribute_id: i8,
    /// What may be done with it.
    pub access: AttributeAccess,
    /// Which selective-access selectors it supports, when the server lists them.
    pub has_selectors: bool,
}

/// One method's rights.
#[derive(Debug, Clone, Copy, PartialEq, Eq, Structural)]
pub struct MethodRight {
    /// Which method.
    pub method_id: i8,
    /// What may be done with it.
    pub access: MethodAccess,
}

/// What one entry of an association's object list is.
#[verifier::ext_equal]
pub struct EntryV {
    /// Which class.
    pub class_id: u16,
    /// Which version of it.
    pub version: u8,
    /// The object's logical name.
    pub logical_name: Seq<u8>,
    /// The access-rights structure.
    pub access_rights: Option<DataV>,
}

/// One entry of an association's object list.
#[derive(Debug, Clone, Copy, PartialEq)]
pub struct ObjectListEntry<'a> {
    /// Which class.
    pub class_id: u16,
    /// Which version of it.
    pub version: u8,
    /// The object's logical name.
    pub logical_name: Obis,
    /// The raw access-rights structure, decoded on demand.
    pub access_rights: Option<Data<'a>>,
}

impl<'a> View for ObjectListEntry<'a> {
    type V = EntryV;

    open spec fn view(&self) -> EntryV {
        EntryV {
            class_id: self.class_id,
            version: self.version,
            logical_name: self.logical_name@,
            access_rights: match self.access_rights {
                Some(d) => Some(d@),
                None => None,
            },
        }
    }
}

/// A value that is not what it should be.
pub open spec fn invalid() -> Error {
    Error { kind: ErrorKind::InvalidValue, offset: 0 }
}

/// The number a field holds, where it is one between zero and `max`.
pub open spec fn field_number(s: SeqV, i: nat, max: int) -> Result<int> {
    match s.item(i) {
        Err(e) => Err(e),
        Ok(v) => match v.integer() {
            Some(n) if 0 <= n <= max => Ok(n),
            _ => Err(invalid()),
        },
    }
}

/// What an `object_list_element` structure stands for.
pub open spec fn entry_of(d: DataV) -> Result<EntryV> {
    match d {
        DataV::Structure(s) => match field_number(s, 0, 0xFFFF) {
            Err(e) => Err(e),
            Ok(class_id) => match field_number(s, 1, 0xFF) {
                Err(e) => Err(e),
                Ok(version) => match s.item(2) {
                    Err(e) => Err(e),
                    Ok(name) => match name.string() {
                        Some(b) if b.len() == 6 => Ok(
                            EntryV {
                                class_id: class_id as u16,
                                version: version as u8,
                                logical_name: b,
                                access_rights: match s.item(3) {
                                    Ok(v) => Some(v),
                                    Err(_) => None,
                                },
                            },
                        ),
                        _ => Err(invalid()),
                    },
                },
            },
        },
        _ => Err(invalid()),
    }
}

/// The byte a mode stands for where it is a number: zero for anything else.
pub open spec fn mode_byte(v: DataV) -> u8 {
    match v.integer() {
        Some(n) if 0 <= n <= 0xFF => n as u8,
        _ => 0,
    }
}

/// What a mode allows. Version 3 writes the flags as a bit string, of which the first eight
/// bits count.
pub open spec fn access_of(v: DataV, version: AssociationVersion) -> AttributeAccess {
    match version {
        AssociationVersion::Legacy => AttributeAccess::from_legacy(mode_byte(v)),
        AssociationVersion::V3 => AttributeAccess::from_bits_truncate(
            match v {
                DataV::BitString(b) => {
                    let number = b.number(b.bits);
                    let capped = if number > u32::MAX {
                        u32::MAX
                    } else {
                        number as u32
                    };
                    let past: u32 = if b.bits <= 8 {
                        0
                    } else if b.bits >= 32 {
                        24
                    } else {
                        (b.bits - 8) as u32
                    };
                    (capped >> past) as u8
                },
                _ => mode_byte(v),
            },
        ),
    }
}

/// What one entry of the attribute rights stands for.
pub open spec fn right_of(d: DataV, version: AssociationVersion) -> Result<AttributeRight> {
    match d {
        DataV::Structure(s) => match s.item(0) {
            Err(e) => Err(e),
            Ok(id) => match id.integer() {
                Some(n) if i8::MIN <= n <= i8::MAX => match s.item(1) {
                    Err(e) => Err(e),
                    Ok(mode) => Ok(
                        AttributeRight {
                            attribute_id: n as i8,
                            access: access_of(mode, version),
                            has_selectors: s.item(2) matches Ok(v) && !(v is Null),
                        },
                    ),
                },
                _ => Err(invalid()),
            },
        },
        _ => Err(invalid()),
    }
}

/// What a run of entries stands for.
pub open spec fn rights_of(c: Cursor, n: nat, depth: nat, version: AssociationVersion) -> Result<
    Seq<AttributeRight>,
>
    decreases n,
{
    if n == 0 {
        Ok(Seq::empty())
    } else {
        match p_data(c, depth) {
            Err(e) => Err(e),
            Ok((v, d)) => match right_of(v, version) {
                Err(e) => Err(e),
                Ok(r) => prepend(seq![r], rights_of(d, (n - 1) as nat, depth, version)),
            },
        }
    }
}

impl EntryV {
    /// The list of the attribute rights, where the entry has one.
    pub open spec fn right_list(self) -> Option<SeqV> {
        match self.access_rights {
            Some(DataV::Structure(s)) => match s.item(0) {
                Ok(DataV::Array(list)) => Some(list),
                _ => None,
            },
            _ => None,
        }
    }

    /// The rights of every attribute that the entry names.
    pub open spec fn rights(self, version: AssociationVersion) -> Result<Seq<AttributeRight>> {
        match self.right_list() {
            Some(list) => rights_of(list.start(), list.count, list.depth as nat, version),
            None => Ok(Seq::empty()),
        }
    }
}

fn bad() -> (e: Error)
    ensures
        e == invalid(),
{
    Error::new(ErrorKind::InvalidValue, 0)
}

/// The mode of an attribute as flags.
fn access(mode: &Data<'_>, version: AssociationVersion) -> (r: AttributeAccess)
    ensures
        r == access_of(mode@, version),
{
    let byte: u8 = match mode.as_u64() {
        Some(n) => if n <= 0xFF {
            n as u8
        } else {
            0
        },
        None => 0,
    };
    match version {
        AssociationVersion::Legacy => AttributeAccess::from_legacy(byte),
        AssociationVersion::V3 => match mode {
            Data::BitString(b) => {
                let past: u32 = if b.len() <= 8 {
                    0
                } else if b.len() >= 32 {
                    24
                } else {
                    (b.len() - 8) as u32
                };
                AttributeAccess::from_bits_truncate((b.to_u32() >> past) as u8)
            },
            _ => AttributeAccess::from_bits_truncate(byte),
        },
    }
}

/// One entry of the attribute rights.
fn right(entry: &Data<'_>, version: AssociationVersion) -> (r: Result<AttributeRight>)
    ensures
        r == right_of(entry@, version),
{
    let e = match entry.as_structure() {
        Some(s) => s,
        None => {
            return Err(bad());
        },
    };
    let id = e.get(0)?;
    let attribute_id: i8 = match id.as_i64() {
        Some(n) => if -128 <= n && n <= 127 {
            n as i8
        } else {
            return Err(bad());
        },
        None => {
            return Err(bad());
        },
    };
    let mode = e.get(1)?;
    let has_selectors = match e.get(2) {
        Ok(Data::Null) => false,
        Ok(_) => true,
        Err(_) => false,
    };
    Ok(AttributeRight { attribute_id, access: access(&mode, version), has_selectors })
}

impl<'a> ObjectListEntry<'a> {
    /// Decode one `object_list_element` structure.
    ///
    /// The shape is `{ class_id, version, logical_name, access_rights }`, where the
    /// last field is `{ attribute_access, method_access }`.
    pub fn from_data(d: &Data<'a>) -> (r: Result<Self>)
        ensures
            match r {
                Ok(e) => entry_of(d@) == Ok::<EntryV, Error>(e@),
                Err(e) => entry_of(d@) == Err::<EntryV, Error>(e),
            },
    {
        let s = match d.as_structure() {
            Some(s) => s,
            None => {
                return Err(bad());
            },
        };
        let first = s.get(0)?;
        let class_id: u16 = match first.as_u64() {
            Some(n) => if n <= 0xFFFF {
                n as u16
            } else {
                return Err(bad());
            },
            None => {
                return Err(bad());
            },
        };
        let second = s.get(1)?;
        let version: u8 = match second.as_u64() {
            Some(n) => if n <= 0xFF {
                n as u8
            } else {
                return Err(bad());
            },
            None => {
                return Err(bad());
            },
        };
        let third = s.get(2)?;
        let logical_name = match third.as_obis() {
            Some(o) => o,
            None => {
                return Err(bad());
            },
        };
        let access_rights = match s.get(3) {
            Ok(v) => Some(v),
            Err(_) => None,
        };
        Ok(ObjectListEntry { class_id, version, logical_name, access_rights })
    }

    /// The attribute rights, decoded for the given association version: one for each
    /// attribute that the entry names, in the order in which it names them. An entry that
    /// holds no list of them has none.
    ///
    /// # Errors
    /// [`ErrorKind::InvalidValue`] when an entry of the list is not
    /// `{ attribute_id, access_mode, … }`.
    #[verifier::loop_isolation(false)]
    pub fn for_each_attribute_right(&self, version: AssociationVersion) -> (r: Result<
        Vec<AttributeRight>,
    >)
        ensures
            match r {
                Ok(v) => self@.rights(version) == Ok::<Seq<AttributeRight>, Error>(v@),
                Err(e) => self@.rights(version) == Err::<Seq<AttributeRight>, Error>(e),
            },
    {
        let mut out: Vec<AttributeRight> = Vec::new();
        assert(out@ =~= Seq::<AttributeRight>::empty());
        let s = match &self.access_rights {
            Some(d) => match d.as_structure() {
                Some(s) => s,
                None => {
                    return Ok(out);
                },
            },
            None => {
                return Ok(out);
            },
        };
        let list = match s.get(0) {
            Ok(d) => match d.as_array() {
                Some(l) => l,
                None => {
                    return Ok(out);
                },
            },
            Err(_) => {
                return Ok(out);
            },
        };
        let mut it = list.iter();
        let ghost depth = list@.depth as nat;
        assert(self@.right_list() == Some(list@));
        proof {
            let rest = rights_of(it.cursor(), it.left(), depth, version);
            if rest is Ok {
                assert(out@ + rest->Ok_0 =~= rest->Ok_0);
            }
        }
        loop
            invariant
                it.level() == depth,
                rights_of(list@.start(), list@.count, depth, version) == prepend(
                    out@,
                    rights_of(it.cursor(), it.left(), depth, version),
                ),
            decreases it.left(),
        {
            let ghost rest = rights_of(it.cursor(), it.left(), depth, version);
            match it.next() {
                None => {
                    assert(out@ + Seq::<AttributeRight>::empty() =~= out@);
                    return Ok(out);
                },
                Some(entry) => {
                    let entry = entry?;
                    let r = right(&entry, version)?;
                    let ghost before = out@;
                    out.push(r);
                    proof {
                        let tail = rights_of(it.cursor(), it.left(), depth, version);
                        if tail is Ok {
                            assert(before + (seq![r] + tail->Ok_0) =~= out@ + tail->Ok_0);
                        }
                    }
                },
            }
        }
    }
}

/// A bit string of up to eight bits, read as the access-mode byte.
///
/// Version 3 writes the flags as a bit string whose first bit is `read`. A bit string
/// numbers its bits from the most significant end, so the byte a caller wants is the
/// first eight bits in transmission order — which is the first byte, exactly as it
/// arrived.
#[must_use]
pub fn access_byte(d: &Data<'_>) -> (r: Option<u8>)
    ensures
        r == (match d@ {
            DataV::BitString(b) => if b.bytes.len() > 0 {
                Some(b.bytes[0])
            } else {
                None
            },
            v => match v.integer() {
                Some(n) if 0 <= n <= 0xFF => Some(n as u8),
                _ => None,
            },
        }),
{
    match d {
        Data::BitString(b) => {
            let bytes = b.as_bytes();
            if bytes.len() > 0 {
                Some(bytes[0])
            } else {
                None
            }
        },
        other => match other.as_u64() {
            Some(n) => if n <= 0xFF {
                Some(n as u8)
            } else {
                None
            },
            None => None,
        },
    }
}

} // verus!
