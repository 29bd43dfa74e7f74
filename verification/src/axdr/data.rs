//! The A-XDR `Data` type.
//!
//! [`Data`] is a *borrowed* view over the input: an array or structure keeps the slice its
//! elements live in and decodes them when asked. [`DataV`] is what a value is, and
//! [`p_data`] what the bytes at a cursor decode to; [`DataBuf`] is the owned tree, and
//! [`TreeV`] what that is.
//!
//! Floating-point values are carried as their bit patterns.

use vstd::prelude::*;
#[allow(unused_imports)]
use vstd::string::StringSliceAdditionalSpecFns;

use super::compact::CompactArray;
#[allow(unused_imports)]
use super::compact::{
    alike, lemma_alike, lemma_compact_adv, lemma_compact_local, lemma_desc_adv, lemma_desc_local,
    lemma_length_local, p_compact, p_desc, CompactV,
};
use super::datetime::{Date, DateTime, Time};
#[allow(unused_imports)]
use super::datetime::law_wire_round_trip;
use crate::bytes::same_bytes;
use crate::codec::{Decode, Encode, Error, ErrorKind, Reader, Result, Writer};
#[allow(unused_imports)]
use crate::bytes::{be_bytes, lemma_be_bytes_len, lemma_be_roundtrip, lemma_pow256, pow256};
#[allow(unused_imports)]
use crate::codec::{
    appended, clip, enc_length, enc_prefixed, err_at, err_before, law_length_is_shortest,
    law_length_prefixed_round_trip, law_length_round_trip, lemma_stopped, lemma_then, length_fits,
    p_be, p_length, p_length_prefixed, p_take, p_u8, whole, Cursor,
};
use crate::obis::Obis;
use crate::text::utf8;

verus! {

/// The deepest nesting a decoder will follow before refusing.
pub const MAX_DEPTH: u8 = 16;

/// The tag byte that introduces a value.
///
/// An unknown tag is refused rather than skipped: without a length, an unknown value
/// cannot be stepped over safely.
#[derive(Debug, Clone, Copy, PartialEq, Eq, PartialOrd, Ord, Hash, Structural)]
#[allow(missing_docs)]
pub enum DataTag {
    NullData,
    Array,
    Structure,
    Boolean,
    BitString,
    DoubleLong,
    DoubleLongUnsigned,
    OctetString,
    VisibleString,
    Utf8String,
    Bcd,
    Integer,
    Long,
    Unsigned,
    LongUnsigned,
    CompactArray,
    Long64,
    Long64Unsigned,
    Enum,
    Float32,
    Float64,
    DateTime,
    Date,
    Time,
    DeltaInteger,
    DeltaLong,
    DeltaDoubleLong,
    DeltaUnsigned,
    DeltaLongUnsigned,
    DeltaDoubleLongUnsigned,
    DontCare,
}

/// The tag a byte stands for.
#[verifier::opaque]
pub open spec fn tag_of(v: u8) -> Option<DataTag> {
    if v == 0 {
        Some(DataTag::NullData)
    } else if v == 1 {
        Some(DataTag::Array)
    } else if v == 2 {
        Some(DataTag::Structure)
    } else if v == 3 {
        Some(DataTag::Boolean)
    } else if v == 4 {
        Some(DataTag::BitString)
    } else if v == 5 {
        Some(DataTag::DoubleLong)
    } else if v == 6 {
        Some(DataTag::DoubleLongUnsigned)
    } else if v == 9 {
        Some(DataTag::OctetString)
    } else if v == 10 {
        Some(DataTag::VisibleString)
    } else if v == 12 {
        Some(DataTag::Utf8String)
    } else if v == 13 {
        Some(DataTag::Bcd)
    } else if v == 15 {
        Some(DataTag::Integer)
    } else if v == 16 {
        Some(DataTag::Long)
    } else if v == 17 {
        Some(DataTag::Unsigned)
    } else if v == 18 {
        Some(DataTag::LongUnsigned)
    } else if v == 19 {
        Some(DataTag::CompactArray)
    } else if v == 20 {
        Some(DataTag::Long64)
    } else if v == 21 {
        Some(DataTag::Long64Unsigned)
    } else if v == 22 {
        Some(DataTag::Enum)
    } else if v == 23 {
        Some(DataTag::Float32)
    } else if v == 24 {
        Some(DataTag::Float64)
    } else if v == 25 {
        Some(DataTag::DateTime)
    } else if v == 26 {
        Some(DataTag::Date)
    } else if v == 27 {
        Some(DataTag::Time)
    } else if v == 28 {
        Some(DataTag::DeltaInteger)
    } else if v == 29 {
        Some(DataTag::DeltaLong)
    } else if v == 30 {
        Some(DataTag::DeltaDoubleLong)
    } else if v == 31 {
        Some(DataTag::DeltaUnsigned)
    } else if v == 32 {
        Some(DataTag::DeltaLongUnsigned)
    } else if v == 33 {
        Some(DataTag::DeltaDoubleLongUnsigned)
    } else if v == 255 {
        Some(DataTag::DontCare)
    } else {
        None
    }
}

impl DataTag {
    /// The byte of a tag.
    pub open spec fn code(self) -> u8 {
        match self {
            DataTag::NullData => 0,
            DataTag::Array => 1,
            DataTag::Structure => 2,
            DataTag::Boolean => 3,
            DataTag::BitString => 4,
            DataTag::DoubleLong => 5,
            DataTag::DoubleLongUnsigned => 6,
            DataTag::OctetString => 9,
            DataTag::VisibleString => 10,
            DataTag::Utf8String => 12,
            DataTag::Bcd => 13,
            DataTag::Integer => 15,
            DataTag::Long => 16,
            DataTag::Unsigned => 17,
            DataTag::LongUnsigned => 18,
            DataTag::CompactArray => 19,
            DataTag::Long64 => 20,
            DataTag::Long64Unsigned => 21,
            DataTag::Enum => 22,
            DataTag::Float32 => 23,
            DataTag::Float64 => 24,
            DataTag::DateTime => 25,
            DataTag::Date => 26,
            DataTag::Time => 27,
            DataTag::DeltaInteger => 28,
            DataTag::DeltaLong => 29,
            DataTag::DeltaDoubleLong => 30,
            DataTag::DeltaUnsigned => 31,
            DataTag::DeltaLongUnsigned => 32,
            DataTag::DeltaDoubleLongUnsigned => 33,
            DataTag::DontCare => 255,
        }
    }

    /// The length of the value body, for tags whose bodies all have one length.
    pub open spec fn width(self) -> Option<usize> {
        match self {
            DataTag::NullData => Some(0),
            DataTag::Array => None,
            DataTag::Structure => None,
            DataTag::Boolean => Some(1),
            DataTag::BitString => None,
            DataTag::DoubleLong => Some(4),
            DataTag::DoubleLongUnsigned => Some(4),
            DataTag::OctetString => None,
            DataTag::VisibleString => None,
            DataTag::Utf8String => None,
            DataTag::Bcd => Some(1),
            DataTag::Integer => Some(1),
            DataTag::Long => Some(2),
            DataTag::Unsigned => Some(1),
            DataTag::LongUnsigned => Some(2),
            DataTag::CompactArray => None,
            DataTag::Long64 => Some(8),
            DataTag::Long64Unsigned => Some(8),
            DataTag::Enum => Some(1),
            DataTag::Float32 => Some(4),
            DataTag::Float64 => Some(8),
            DataTag::DateTime => Some(12),
            DataTag::Date => Some(5),
            DataTag::Time => Some(4),
            DataTag::DeltaInteger => Some(1),
            DataTag::DeltaLong => Some(2),
            DataTag::DeltaDoubleLong => Some(4),
            DataTag::DeltaUnsigned => Some(1),
            DataTag::DeltaLongUnsigned => Some(2),
            DataTag::DeltaDoubleLongUnsigned => Some(4),
            DataTag::DontCare => Some(0),
        }
    }

    /// One of the six delta types.
    pub open spec fn delta(self) -> bool {
        self is DeltaInteger || self is DeltaLong || self is DeltaDoubleLong
            || self is DeltaUnsigned || self is DeltaLongUnsigned
            || self is DeltaDoubleLongUnsigned
    }

    /// Classify a tag byte.
    #[must_use]
    pub fn from_u8(v: u8) -> (t: Option<Self>)
        ensures
            t == tag_of(v),
    {
        proof {
            reveal(tag_of);
        }
        match v {
            0 => Some(DataTag::NullData),
            1 => Some(DataTag::Array),
            2 => Some(DataTag::Structure),
            3 => Some(DataTag::Boolean),
            4 => Some(DataTag::BitString),
            5 => Some(DataTag::DoubleLong),
            6 => Some(DataTag::DoubleLongUnsigned),
            9 => Some(DataTag::OctetString),
            10 => Some(DataTag::VisibleString),
            12 => Some(DataTag::Utf8String),
            13 => Some(DataTag::Bcd),
            15 => Some(DataTag::Integer),
            16 => Some(DataTag::Long),
            17 => Some(DataTag::Unsigned),
            18 => Some(DataTag::LongUnsigned),
            19 => Some(DataTag::CompactArray),
            20 => Some(DataTag::Long64),
            21 => Some(DataTag::Long64Unsigned),
            22 => Some(DataTag::Enum),
            23 => Some(DataTag::Float32),
            24 => Some(DataTag::Float64),
            25 => Some(DataTag::DateTime),
            26 => Some(DataTag::Date),
            27 => Some(DataTag::Time),
            28 => Some(DataTag::DeltaInteger),
            29 => Some(DataTag::DeltaLong),
            30 => Some(DataTag::DeltaDoubleLong),
            31 => Some(DataTag::DeltaUnsigned),
            32 => Some(DataTag::DeltaLongUnsigned),
            33 => Some(DataTag::DeltaDoubleLongUnsigned),
            255 => Some(DataTag::DontCare),
            _ => None,
        }
    }

    /// The tag byte.
    #[must_use]
    pub fn as_u8(self) -> (v: u8)
        ensures
            v == self.code(),
    {
        match self {
            DataTag::NullData => 0,
            DataTag::Array => 1,
            DataTag::Structure => 2,
            DataTag::Boolean => 3,
            DataTag::BitString => 4,
            DataTag::DoubleLong => 5,
            DataTag::DoubleLongUnsigned => 6,
            DataTag::OctetString => 9,
            DataTag::VisibleString => 10,
            DataTag::Utf8String => 12,
            DataTag::Bcd => 13,
            DataTag::Integer => 15,
            DataTag::Long => 16,
            DataTag::Unsigned => 17,
            DataTag::LongUnsigned => 18,
            DataTag::CompactArray => 19,
            DataTag::Long64 => 20,
            DataTag::Long64Unsigned => 21,
            DataTag::Enum => 22,
            DataTag::Float32 => 23,
            DataTag::Float64 => 24,
            DataTag::DateTime => 25,
            DataTag::Date => 26,
            DataTag::Time => 27,
            DataTag::DeltaInteger => 28,
            DataTag::DeltaLong => 29,
            DataTag::DeltaDoubleLong => 30,
            DataTag::DeltaUnsigned => 31,
            DataTag::DeltaLongUnsigned => 32,
            DataTag::DeltaDoubleLongUnsigned => 33,
            DataTag::DontCare => 255,
        }
    }

    /// The fixed encoded length of the value body, for tags that have one.
    ///
    /// `None` for the variable-length tags: strings, arrays, structures, bit strings and
    /// compact arrays.
    #[must_use]
    pub fn fixed_len(self) -> (n: Option<usize>)
        ensures
            n == self.width(),
    {
        match self {
            DataTag::NullData | DataTag::DontCare => Some(0),
            DataTag::Boolean | DataTag::Bcd | DataTag::Integer | DataTag::Unsigned | DataTag::Enum | DataTag::DeltaInteger | DataTag::DeltaUnsigned => Some(1),
            DataTag::Long | DataTag::LongUnsigned | DataTag::DeltaLong | DataTag::DeltaLongUnsigned => Some(2),
            DataTag::DoubleLong | DataTag::DoubleLongUnsigned | DataTag::Float32 | DataTag::Time | DataTag::DeltaDoubleLong | DataTag::DeltaDoubleLongUnsigned => Some(4),
            DataTag::Date => Some(5),
            DataTag::Long64 | DataTag::Long64Unsigned | DataTag::Float64 => Some(8),
            DataTag::DateTime => Some(12),
            _ => None,
        }
    }

    /// True for one of the six delta types.
    #[must_use]
    pub fn is_delta(self) -> (r: bool)
        ensures
            r == self.delta(),
    {
        match self {
            DataTag::DeltaInteger
            | DataTag::DeltaLong
            | DataTag::DeltaDoubleLong
            | DataTag::DeltaUnsigned
            | DataTag::DeltaLongUnsigned
            | DataTag::DeltaDoubleLongUnsigned => true,
            _ => false,
        }
    }
}

/// A tag and its byte name each other.
pub proof fn law_tag_round_trip(t: DataTag, v: u8)
    ensures
        tag_of(t.code()) == Some(t),
        tag_of(v) matches Some(u) ==> u.code() == v,
{
    reveal(tag_of);
}

/// What a bit string is: how many bits, and the bytes holding them.
#[verifier::ext_equal]
pub struct BitV {
    /// The number of significant bits.
    pub bits: nat,
    /// The bytes.
    pub bytes: Seq<u8>,
}

impl BitV {
    /// Bit `i`, counting from the most significant bit of the first byte; false past the
    /// end.
    pub open spec fn bit(self, i: int) -> bool {
        0 <= i < self.bits && (self.bytes[i / 8] & (0x80u8 >> ((i % 8) as u8))) != 0
    }

    /// The number the first `n` bits stand for, most significant first.
    pub open spec fn number(self, n: nat) -> nat
        decreases n,
    {
        if n == 0 {
            0
        } else {
            self.number((n - 1) as nat) * 2 + (if self.bit(n - 1) {
                1nat
            } else {
                0
            })
        }
    }
}

/// How many bytes hold `bits` bits.
pub open spec fn bytes_for(bits: nat) -> nat {
    (bits + 7) / 8
}

/// A bit string: a bit count and the bytes holding it, most significant bit first.
#[derive(Debug, Clone, Copy, PartialEq, Eq)]
pub struct BitStr<'a> {
    bits: usize,
    bytes: &'a [u8],
}

impl<'a> View for BitStr<'a> {
    type V = BitV;

    closed spec fn view(&self) -> BitV {
        BitV { bits: self.bits as nat, bytes: self.bytes@ }
    }
}

fn div_ceil_8(bits: usize) -> (n: usize)
    ensures
        n == bytes_for(bits as nat),
{
    if bits % 8 == 0 {
        bits / 8
    } else {
        bits / 8 + 1
    }
}

impl<'a> BitStr<'a> {
    /// As many bytes as the bits need.
    #[verifier::type_invariant]
    pub open spec fn inv(self) -> bool {
        self@.bytes.len() == bytes_for(self@.bits)
    }

    /// A bit string over `bytes`, of which the first `bits` are significant.
    pub fn new(bits: usize, bytes: &'a [u8]) -> (r: Result<Self>)
        ensures
            match r {
                Ok(b) => b@ == (BitV { bits: bits as nat, bytes: bytes@ }) && bytes@.len()
                    == bytes_for(bits as nat),
                Err(e) => bytes@.len() != bytes_for(bits as nat) && e == (Error {
                    kind: ErrorKind::InvalidLength,
                    offset: 0,
                }),
            },
    {
        if bytes.len() != div_ceil_8(bits) {
            return Err(Error::new(ErrorKind::InvalidLength, 0));
        }
        Ok(BitStr { bits, bytes })
    }

    /// The number of significant bits.
    #[must_use]
    pub fn len(&self) -> (n: usize)
        ensures
            n == self@.bits,
    {
        self.bits
    }

    /// True when there are no bits.
    #[must_use]
    pub fn is_empty(&self) -> (r: bool)
        ensures
            r == (self@.bits == 0),
    {
        self.bits == 0
    }

    /// The backing bytes.
    #[must_use]
    pub fn as_bytes(&self) -> (b: &'a [u8])
        ensures
            b@ == self@.bytes,
            b@.len() == bytes_for(self@.bits),
    {
        proof {
            use_type_invariant(self);
        }
        self.bytes
    }

    /// Bit `i`, counting from the most significant bit of the first byte.
    #[must_use]
    pub fn bit(&self, i: usize) -> (r: bool)
        ensures
            r == self@.bit(i as int),
    {
        if i >= self.bits {
            return false;
        }
        proof {
            use_type_invariant(self);
        }
        self.bytes[i / 8] & (0x80u8 >> ((i % 8) as u8)) != 0
    }

    /// The bits as a big-endian integer, most significant bit first.
    ///
    /// It saturates rather than wrapping for a longer string than `u32` can hold.
    #[must_use]
    pub fn to_u32(&self) -> (v: u32)
        ensures
            v == (if self@.number(self@.bits) > u32::MAX {
                u32::MAX as nat
            } else {
                self@.number(self@.bits)
            }),
    {
        let mut v: u32 = 0;
        let mut i: usize = 0;
        while i < self.bits
            invariant
                i <= self.bits,
                self@.bits == self.bits,
                v == self@.number(i as nat),
            decreases self.bits - i,
        {
            if v > 0x7FFF_FFFF {
                proof {
                    lemma_number_grows(self@, (i + 1) as nat, self@.bits);
                }
                return u32::MAX;
            }
            v = v * 2 + (if self.bit(i) {
                1
            } else {
                0
            });
            i = i + 1;
        }
        v
    }
}

proof fn lemma_number_grows(b: BitV, m: nat, n: nat)
    requires
        m <= n,
    ensures
        b.number(m) <= b.number(n),
    decreases n,
{
    if m < n {
        lemma_number_grows(b, m, (n - 1) as nat);
    }
}

/// What an array or structure is: how many elements, their bytes, where in the frame
/// those start, and how deep the elements sit.
#[verifier::ext_equal]
pub struct SeqV {
    /// The number of elements.
    pub count: nat,
    /// The encoded elements, tags included.
    pub raw: Seq<u8>,
    /// Where they start in the frame.
    pub base: usize,
    /// How deep the elements sit.
    pub depth: u8,
}

impl SeqV {
    /// The cursor at the first element.
    pub open spec fn start(self) -> Cursor {
        Cursor { buf: self.raw, pos: 0, base: self.base as nat }
    }

    /// The bytes are exactly `count` values.
    pub open spec fn valid(self) -> bool {
        p_skip_n(self.start(), self.count, self.depth as nat) == Ok::<Cursor, Error>(
            self.start().adv(self.raw.len()),
        )
    }

    /// The element at an index, counting from zero.
    pub open spec fn item(self, i: nat) -> Result<DataV> {
        if i >= self.count {
            Err(Error { kind: ErrorKind::InvalidLength, offset: self.base })
        } else {
            match p_nth(self.start(), i, self.depth as nat) {
                Ok((v, _)) => Ok(v),
                Err(e) => Err(e),
            }
        }
    }

    /// The same elements, wherever they were found.
    pub open spec fn same(self, other: SeqV) -> bool {
        self.count == other.count && self.raw == other.raw
    }
}

/// What a value is.
#[verifier::ext_equal]
pub enum DataV {
    Null,
    Array(SeqV),
    Structure(SeqV),
    Boolean(bool),
    BitString(BitV),
    DoubleLong(i32),
    DoubleLongUnsigned(u32),
    OctetString(Seq<u8>),
    VisibleString(Seq<u8>),
    Utf8String(Seq<u8>),
    Bcd(i8),
    Integer(i8),
    Long(i16),
    Unsigned(u8),
    LongUnsigned(u16),
    CompactArray(CompactV),
    Long64(i64),
    Long64Unsigned(u64),
    Enum(u8),
    Float32(u32),
    Float64(u64),
    DateTime(DateTime),
    Date(Date),
    Time(Time),
    DeltaInteger(i8),
    DeltaLong(i16),
    DeltaDoubleLong(i32),
    DeltaUnsigned(u8),
    DeltaLongUnsigned(u16),
    DeltaDoubleLongUnsigned(u32),
    DontCare,
}

impl DataV {
    /// The tag of a value.
    pub open spec fn tag(self) -> DataTag {
        match self {
            DataV::Null => DataTag::NullData,
            DataV::Array(_) => DataTag::Array,
            DataV::Structure(_) => DataTag::Structure,
            DataV::Boolean(_) => DataTag::Boolean,
            DataV::BitString(_) => DataTag::BitString,
            DataV::DoubleLong(_) => DataTag::DoubleLong,
            DataV::DoubleLongUnsigned(_) => DataTag::DoubleLongUnsigned,
            DataV::OctetString(_) => DataTag::OctetString,
            DataV::VisibleString(_) => DataTag::VisibleString,
            DataV::Utf8String(_) => DataTag::Utf8String,
            DataV::Bcd(_) => DataTag::Bcd,
            DataV::Integer(_) => DataTag::Integer,
            DataV::Long(_) => DataTag::Long,
            DataV::Unsigned(_) => DataTag::Unsigned,
            DataV::LongUnsigned(_) => DataTag::LongUnsigned,
            DataV::CompactArray(_) => DataTag::CompactArray,
            DataV::Long64(_) => DataTag::Long64,
            DataV::Long64Unsigned(_) => DataTag::Long64Unsigned,
            DataV::Enum(_) => DataTag::Enum,
            DataV::Float32(_) => DataTag::Float32,
            DataV::Float64(_) => DataTag::Float64,
            DataV::DateTime(_) => DataTag::DateTime,
            DataV::Date(_) => DataTag::Date,
            DataV::Time(_) => DataTag::Time,
            DataV::DeltaInteger(_) => DataTag::DeltaInteger,
            DataV::DeltaLong(_) => DataTag::DeltaLong,
            DataV::DeltaDoubleLong(_) => DataTag::DeltaDoubleLong,
            DataV::DeltaUnsigned(_) => DataTag::DeltaUnsigned,
            DataV::DeltaLongUnsigned(_) => DataTag::DeltaLongUnsigned,
            DataV::DeltaDoubleLongUnsigned(_) => DataTag::DeltaDoubleLongUnsigned,
            DataV::DontCare => DataTag::DontCare,
        }
    }

    /// The same value, wherever it was found.
    pub open spec fn same(self, other: DataV) -> bool {
        match (self, other) {
            (DataV::Array(a), DataV::Array(b)) => a.same(b),
            (DataV::Structure(a), DataV::Structure(b)) => a.same(b),
            (DataV::CompactArray(a), DataV::CompactArray(b)) => a.same(b),
            _ => self == other,
        }
    }

    /// The encoding of a value, behind its tag.
    pub open spec fn body(self) -> Seq<u8> {
        match self {
            DataV::Null | DataV::DontCare => Seq::empty(),
            DataV::Array(s) | DataV::Structure(s) => enc_length(s.count) + s.raw,
            DataV::Boolean(v) => seq![if v { 1u8 } else { 0u8 }],
            DataV::BitString(b) => enc_length(b.bits) + b.bytes,
            DataV::OctetString(b) | DataV::VisibleString(b) | DataV::Utf8String(b) => enc_prefixed(
                b,
            ),
            DataV::CompactArray(c) => c.desc + enc_prefixed(c.contents),
            DataV::DateTime(v) => v.wire(),
            DataV::Date(v) => v.wire(),
            DataV::Time(v) => v.wire(),
            DataV::DoubleLong(v) => be_bytes((v as u32) as nat, 4),
            DataV::DoubleLongUnsigned(v) => be_bytes((v) as nat, 4),
            DataV::Bcd(v) => seq![v as u8],
            DataV::Integer(v) => seq![v as u8],
            DataV::Long(v) => be_bytes((v as u16) as nat, 2),
            DataV::Unsigned(v) => seq![v],
            DataV::LongUnsigned(v) => be_bytes((v) as nat, 2),
            DataV::Long64(v) => be_bytes((v as u64) as nat, 8),
            DataV::Long64Unsigned(v) => be_bytes((v) as nat, 8),
            DataV::Enum(v) => seq![v],
            DataV::Float32(v) => be_bytes((v) as nat, 4),
            DataV::Float64(v) => be_bytes((v) as nat, 8),
            DataV::DeltaInteger(v) => seq![v as u8],
            DataV::DeltaLong(v) => be_bytes((v as u16) as nat, 2),
            DataV::DeltaDoubleLong(v) => be_bytes((v as u32) as nat, 4),
            DataV::DeltaUnsigned(v) => seq![v],
            DataV::DeltaLongUnsigned(v) => be_bytes((v) as nat, 2),
            DataV::DeltaDoubleLongUnsigned(v) => be_bytes((v) as nat, 4),
        }
    }

    /// The encoding of a value.
    pub open spec fn enc(self) -> Seq<u8> {
        seq![self.tag().code()] + self.body()
    }

    /// Whether there is an encoding: every length fits in four bytes.
    pub open spec fn encodable(self) -> bool {
        match self {
            DataV::Array(s) | DataV::Structure(s) => length_fits(s.count),
            DataV::BitString(b) => length_fits(b.bits),
            DataV::OctetString(b) | DataV::VisibleString(b) | DataV::Utf8String(b) => length_fits(
                b.len(),
            ),
            DataV::CompactArray(c) => length_fits(c.contents.len()),
            _ => true,
        }
    }

    /// The value as an integer, for any of the integer tags and an enumeration.
    pub open spec fn integer(self) -> Option<int> {
        match self {
            DataV::DoubleLong(v) => Some(v as int),
            DataV::DoubleLongUnsigned(v) => Some(v as int),
            DataV::Integer(v) => Some(v as int),
            DataV::Long(v) => Some(v as int),
            DataV::Unsigned(v) => Some(v as int),
            DataV::LongUnsigned(v) => Some(v as int),
            DataV::Long64(v) => Some(v as int),
            DataV::Long64Unsigned(v) => Some(v as int),
            DataV::Enum(v) => Some(v as int),
            DataV::DeltaInteger(v) => Some(v as int),
            DataV::DeltaLong(v) => Some(v as int),
            DataV::DeltaDoubleLong(v) => Some(v as int),
            DataV::DeltaUnsigned(v) => Some(v as int),
            DataV::DeltaLongUnsigned(v) => Some(v as int),
            DataV::DeltaDoubleLongUnsigned(v) => Some(v as int),
            _ => None,
        }
    }

    /// The bytes of an octet string or either string type.
    pub open spec fn string(self) -> Option<Seq<u8>> {
        match self {
            DataV::OctetString(b) | DataV::VisibleString(b) | DataV::Utf8String(b) => Some(b),
            _ => None,
        }
    }
}

/// What a body of the given tag decodes to, for the tags that hold one plain value.
#[verifier::opaque]
pub open spec fn p_leaf(c: Cursor, tag: DataTag) -> Result<(DataV, Cursor)> {
    match tag {
        DataTag::NullData => Ok((DataV::Null, c)),
        DataTag::DontCare => Ok((DataV::DontCare, c)),
        DataTag::Boolean => match p_u8(c) {
            Ok((b, d)) => Ok((DataV::Boolean(b != 0), d)),
            Err(e) => Err(e),
        },
        DataTag::BitString => match p_length(c) {
            Ok((bits, d)) => match p_take(d, bytes_for(bits)) {
                Ok((bytes, f)) => Ok((DataV::BitString(BitV { bits, bytes }), f)),
                Err(e) => Err(e),
            },
            Err(e) => Err(e),
        },
        DataTag::DoubleLong => match p_be(c, 4) {
            Ok((v, d)) => Ok((DataV::DoubleLong((v as u32) as i32), d)),
            Err(e) => Err(e),
        },
        DataTag::DoubleLongUnsigned => match p_be(c, 4) {
            Ok((v, d)) => Ok((DataV::DoubleLongUnsigned(v as u32), d)),
            Err(e) => Err(e),
        },
        DataTag::OctetString => match p_length_prefixed(c) {
            Ok((s, d)) => Ok((DataV::OctetString(s), d)),
            Err(e) => Err(e),
        },
        DataTag::VisibleString => match p_length_prefixed(c) {
            Ok((s, d)) => Ok((DataV::VisibleString(s), d)),
            Err(e) => Err(e),
        },
        DataTag::Utf8String => match p_length_prefixed(c) {
            Ok((s, d)) => Ok((DataV::Utf8String(s), d)),
            Err(e) => Err(e),
        },
        DataTag::Bcd => match p_u8(c) {
            Ok((b, d)) => Ok((DataV::Bcd(b as i8), d)),
            Err(e) => Err(e),
        },
        DataTag::Integer => match p_u8(c) {
            Ok((b, d)) => Ok((DataV::Integer(b as i8), d)),
            Err(e) => Err(e),
        },
        DataTag::Long => match p_be(c, 2) {
            Ok((v, d)) => Ok((DataV::Long((v as u16) as i16), d)),
            Err(e) => Err(e),
        },
        DataTag::Unsigned => match p_u8(c) {
            Ok((b, d)) => Ok((DataV::Unsigned(b), d)),
            Err(e) => Err(e),
        },
        DataTag::LongUnsigned => match p_be(c, 2) {
            Ok((v, d)) => Ok((DataV::LongUnsigned(v as u16), d)),
            Err(e) => Err(e),
        },
        DataTag::Long64 => match p_be(c, 8) {
            Ok((v, d)) => Ok((DataV::Long64((v as u64) as i64), d)),
            Err(e) => Err(e),
        },
        DataTag::Long64Unsigned => match p_be(c, 8) {
            Ok((v, d)) => Ok((DataV::Long64Unsigned(v as u64), d)),
            Err(e) => Err(e),
        },
        DataTag::Enum => match p_u8(c) {
            Ok((b, d)) => Ok((DataV::Enum(b), d)),
            Err(e) => Err(e),
        },
        DataTag::Float32 => match p_be(c, 4) {
            Ok((v, d)) => Ok((DataV::Float32(v as u32), d)),
            Err(e) => Err(e),
        },
        DataTag::Float64 => match p_be(c, 8) {
            Ok((v, d)) => Ok((DataV::Float64(v as u64), d)),
            Err(e) => Err(e),
        },
        DataTag::DateTime => match p_take(c, 12) {
            Ok((s, d)) => Ok((DataV::DateTime(DateTime::of_wire(s)), d)),
            Err(e) => Err(e),
        },
        DataTag::Date => match p_take(c, 5) {
            Ok((s, d)) => Ok((DataV::Date(Date::of_wire(s)), d)),
            Err(e) => Err(e),
        },
        DataTag::Time => match p_take(c, 4) {
            Ok((s, d)) => Ok((DataV::Time(Time::of_wire(s)), d)),
            Err(e) => Err(e),
        },
        DataTag::DeltaInteger => match p_u8(c) {
            Ok((b, d)) => Ok((DataV::DeltaInteger(b as i8), d)),
            Err(e) => Err(e),
        },
        DataTag::DeltaLong => match p_be(c, 2) {
            Ok((v, d)) => Ok((DataV::DeltaLong((v as u16) as i16), d)),
            Err(e) => Err(e),
        },
        DataTag::DeltaDoubleLong => match p_be(c, 4) {
            Ok((v, d)) => Ok((DataV::DeltaDoubleLong((v as u32) as i32), d)),
            Err(e) => Err(e),
        },
        DataTag::DeltaUnsigned => match p_u8(c) {
            Ok((b, d)) => Ok((DataV::DeltaUnsigned(b), d)),
            Err(e) => Err(e),
        },
        DataTag::DeltaLongUnsigned => match p_be(c, 2) {
            Ok((v, d)) => Ok((DataV::DeltaLongUnsigned(v as u16), d)),
            Err(e) => Err(e),
        },
        DataTag::DeltaDoubleLongUnsigned => match p_be(c, 4) {
            Ok((v, d)) => Ok((DataV::DeltaDoubleLongUnsigned(v as u32), d)),
            Err(e) => Err(e),
        },
        DataTag::Array | DataTag::Structure | DataTag::CompactArray => Err(
            err_at(ErrorKind::InvalidTag(tag.code()), c.at()),
        ),
    }
}

/// What a body of the given tag decodes to, `depth` levels down.
pub open spec fn p_body(c: Cursor, tag: DataTag, depth: nat) -> Result<(DataV, Cursor)>
    decreases 16 - depth, 0nat,
    when depth < 16
{
    match tag {
        DataTag::Array | DataTag::Structure => match p_length(c) {
            Err(e) => Err(e),
            Ok((count, d)) => match p_skip_n(d, count, depth + 1) {
                Err(e) => Err(e),
                Ok(f) => {
                    let s = SeqV {
                        count,
                        raw: d.peek((f.pos - d.pos) as nat),
                        base: clip(d.at()),
                        depth: (depth + 1) as u8,
                    };
                    if tag is Array {
                        Ok((DataV::Array(s), f))
                    } else {
                        Ok((DataV::Structure(s), f))
                    }
                },
            },
        },
        DataTag::CompactArray => match p_compact(c, depth + 1) {
            Ok((v, d)) => Ok((DataV::CompactArray(v), d)),
            Err(e) => Err(e),
        },
        _ => p_leaf(c, tag),
    }
}

/// What the bytes at a cursor decode to, `depth` levels down.
pub open spec fn p_data(c: Cursor, depth: nat) -> Result<(DataV, Cursor)>
    decreases 16 - depth, 1nat,
{
    if depth >= MAX_DEPTH {
        Err(err_at(ErrorKind::DepthExceeded, c.at()))
    } else {
        match p_u8(c) {
            Err(e) => Err(e),
            Ok((b, d)) => match tag_of(b) {
                None => Err(err_before(ErrorKind::InvalidTag(b), d.at(), 1)),
                Some(tag) => p_body(d, tag, depth),
            },
        }
    }
}

/// Where `n` values in a row end.
pub open spec fn p_skip_n(c: Cursor, n: nat, depth: nat) -> Result<Cursor>
    decreases 16 - depth, n + 2,
{
    if n == 0 {
        Ok(c)
    } else {
        match p_data(c, depth) {
            Err(e) => Err(e),
            Ok((_, d)) => p_skip_n(d, (n - 1) as nat, depth),
        }
    }
}

/// Element `i` of a run of values.
pub open spec fn p_nth(c: Cursor, i: nat, depth: nat) -> Result<(DataV, Cursor)> {
    match p_skip_n(c, i, depth) {
        Err(e) => Err(e),
        Ok(d) => p_data(d, depth),
    }
}

/// A borrowed array or structure: an element count and the bytes they live in.
///
/// Elements are validated when the sequence is decoded — every one is walked to find
/// where the sequence ends — and re-parsed when asked for.
#[derive(Debug, Clone, Copy)]
pub struct DataSeq<'a> {
    count: usize,
    raw: &'a [u8],
    base: usize,
    depth: u8,
}

impl<'a> View for DataSeq<'a> {
    type V = SeqV;

    closed spec fn view(&self) -> SeqV {
        SeqV { count: self.count as nat, raw: self.raw@, base: self.base, depth: self.depth }
    }
}

/// Two sequences are equal when they hold the same elements: where the bytes came from
/// does not matter.
impl<'a> PartialEq for DataSeq<'a> {
    fn eq(&self, other: &Self) -> (r: bool) {
        self.count == other.count && same_bytes(self.raw, other.raw)
    }
}

impl<'a> Eq for DataSeq<'a> {

}

impl<'a> vstd::std_specs::cmp::PartialEqSpecImpl for DataSeq<'a> {
    open spec fn obeys_eq_spec() -> bool {
        true
    }

    open spec fn eq_spec(&self, other: &Self) -> bool {
        self@.same(other@)
    }
}

/// A value, borrowed from the buffer it was decoded out of.
#[derive(Debug, Clone, Copy, PartialEq)]
#[allow(missing_docs)]
pub enum Data<'a> {
    /// No value. In a profile buffer with null-data compression it also means
    /// "unchanged from the previous row".
    Null,
    Array(DataSeq<'a>),
    Structure(DataSeq<'a>),
    Boolean(bool),
    BitString(BitStr<'a>),
    DoubleLong(i32),
    DoubleLongUnsigned(u32),
    OctetString(&'a [u8]),
    /// An ISO 646 string, not validated as UTF-8.
    VisibleString(&'a [u8]),
    /// Bytes tagged as UTF-8, validated on access through [`Data::as_str`].
    Utf8String(&'a [u8]),
    Bcd(i8),
    Integer(i8),
    Long(i16),
    Unsigned(u8),
    LongUnsigned(u16),
    CompactArray(CompactArray<'a>),
    Long64(i64),
    Long64Unsigned(u64),
    Enum(u8),
    /// The bit pattern of a single-precision number.
    Float32(u32),
    /// The bit pattern of a double-precision number.
    Float64(u64),
    DateTime(DateTime),
    Date(Date),
    Time(Time),
    DeltaInteger(i8),
    DeltaLong(i16),
    DeltaDoubleLong(i32),
    DeltaUnsigned(u8),
    DeltaLongUnsigned(u16),
    DeltaDoubleLongUnsigned(u32),
    /// A wildcard used in access descriptors to mean "any".
    DontCare,
}

impl<'a> View for Data<'a> {
    type V = DataV;

    open spec fn view(&self) -> DataV {
        match *self {
            Data::Null => DataV::Null,
            Data::Array(v) => DataV::Array(v@),
            Data::Structure(v) => DataV::Structure(v@),
            Data::Boolean(v) => DataV::Boolean(v),
            Data::BitString(v) => DataV::BitString(v@),
            Data::DoubleLong(v) => DataV::DoubleLong(v),
            Data::DoubleLongUnsigned(v) => DataV::DoubleLongUnsigned(v),
            Data::OctetString(v) => DataV::OctetString(v@),
            Data::VisibleString(v) => DataV::VisibleString(v@),
            Data::Utf8String(v) => DataV::Utf8String(v@),
            Data::Bcd(v) => DataV::Bcd(v),
            Data::Integer(v) => DataV::Integer(v),
            Data::Long(v) => DataV::Long(v),
            Data::Unsigned(v) => DataV::Unsigned(v),
            Data::LongUnsigned(v) => DataV::LongUnsigned(v),
            Data::CompactArray(v) => DataV::CompactArray(v@),
            Data::Long64(v) => DataV::Long64(v),
            Data::Long64Unsigned(v) => DataV::Long64Unsigned(v),
            Data::Enum(v) => DataV::Enum(v),
            Data::Float32(v) => DataV::Float32(v),
            Data::Float64(v) => DataV::Float64(v),
            Data::DateTime(v) => DataV::DateTime(v),
            Data::Date(v) => DataV::Date(v),
            Data::Time(v) => DataV::Time(v),
            Data::DeltaInteger(v) => DataV::DeltaInteger(v),
            Data::DeltaLong(v) => DataV::DeltaLong(v),
            Data::DeltaDoubleLong(v) => DataV::DeltaDoubleLong(v),
            Data::DeltaUnsigned(v) => DataV::DeltaUnsigned(v),
            Data::DeltaLongUnsigned(v) => DataV::DeltaLongUnsigned(v),
            Data::DeltaDoubleLongUnsigned(v) => DataV::DeltaDoubleLongUnsigned(v),
            Data::DontCare => DataV::DontCare,
        }
    }
}

/// Decode one leaf value that carries no tag of its own.
pub fn leaf<'a>(r: &mut Reader<'a>, tag: DataTag) -> (res: Result<Data<'a>>)
    ensures
        final(r)@.same_input(old(r)@),
        final(r)@.pos >= old(r)@.pos,
        match res {
            Ok(v) => p_leaf(old(r)@, tag) == Ok::<(DataV, Cursor), Error>((v@, final(r)@)),
            Err(e) => p_leaf(old(r)@, tag) == Err::<(DataV, Cursor), Error>(e),
        },
{
    proof {
        reveal(p_leaf);
    }
    Ok(match tag {
        DataTag::NullData => Data::Null,
        DataTag::Boolean => {
            let b = r.u8()?;
            Data::Boolean(b != 0)
        },
        DataTag::BitString => {
            let bits = r.length()?;
            let bytes = r.take(div_ceil_8(bits))?;
            Data::BitString(BitStr { bits, bytes })
        },
        DataTag::DoubleLong => Data::DoubleLong(r.i32()?),
        DataTag::DoubleLongUnsigned => Data::DoubleLongUnsigned(r.u32()?),
        DataTag::OctetString => Data::OctetString(r.length_prefixed()?),
        DataTag::VisibleString => Data::VisibleString(r.length_prefixed()?),
        DataTag::Utf8String => Data::Utf8String(r.length_prefixed()?),
        DataTag::Bcd => Data::Bcd(r.i8()?),
        DataTag::Integer => Data::Integer(r.i8()?),
        DataTag::Long => Data::Long(r.i16()?),
        DataTag::Unsigned => Data::Unsigned(r.u8()?),
        DataTag::LongUnsigned => Data::LongUnsigned(r.u16()?),
        DataTag::Long64 => Data::Long64(r.i64()?),
        DataTag::Long64Unsigned => Data::Long64Unsigned(r.u64()?),
        DataTag::Enum => Data::Enum(r.u8()?),
        DataTag::Float32 => Data::Float32(r.u32()?),
        DataTag::Float64 => Data::Float64(r.u64()?),
        DataTag::DateTime => Data::DateTime(DateTime::from_bytes(r.array::<12>()?)),
        DataTag::Date => Data::Date(Date::from_bytes(r.array::<5>()?)),
        DataTag::Time => Data::Time(Time::from_bytes(r.array::<4>()?)),
        DataTag::DeltaInteger => Data::DeltaInteger(r.i8()?),
        DataTag::DeltaLong => Data::DeltaLong(r.i16()?),
        DataTag::DeltaDoubleLong => Data::DeltaDoubleLong(r.i32()?),
        DataTag::DeltaUnsigned => Data::DeltaUnsigned(r.u8()?),
        DataTag::DeltaLongUnsigned => Data::DeltaLongUnsigned(r.u16()?),
        DataTag::DeltaDoubleLongUnsigned => Data::DeltaDoubleLongUnsigned(r.u32()?),
        DataTag::DontCare => Data::DontCare,
        DataTag::Array | DataTag::Structure | DataTag::CompactArray => {
            return Err(r.err(ErrorKind::InvalidTag(tag.as_u8())));
        },
    })
}

impl<'a> DataSeq<'a> {
    /// The bytes are exactly that many values.
    #[verifier::type_invariant]
    pub open spec fn inv(self) -> bool {
        self@.valid()
    }

    /// The number of elements.
    #[must_use]
    pub fn len(&self) -> (n: usize)
        ensures
            n == self@.count,
    {
        self.count
    }

    /// True when there are no elements.
    #[must_use]
    pub fn is_empty(&self) -> (r: bool)
        ensures
            r == (self@.count == 0),
    {
        self.count == 0
    }

    /// The encoded elements, tags included.
    #[must_use]
    pub fn as_bytes(&self) -> (b: &'a [u8])
        ensures
            b@ == self@.raw,
    {
        self.raw
    }

    /// Walk the elements.
    #[must_use]
    pub fn iter(&self) -> (it: SeqIter<'a>)
        ensures
            it.cursor() == self@.start(),
            it.left() == self@.count,
            it.level() == self@.depth,
    {
        SeqIter {
            reader: Reader::with_base(self.raw, self.base),
            left: self.count,
            depth: self.depth,
        }
    }

    /// The element at `index`, decoded by walking from the start.
    ///
    /// # Errors
    /// [`ErrorKind::InvalidLength`] when there is no such element; there is no other
    /// error, because the elements were validated when the sequence was decoded.
    pub fn get(&self, index: usize) -> (r: Result<Data<'a>>)
        ensures
            match r {
                Ok(v) => index < self@.count && self@.item(index as nat) == Ok::<DataV, Error>(v@),
                Err(e) => index >= self@.count && self@.item(index as nat) == Err::<DataV, Error>(
                    e,
                ),
            },
    {
        if index >= self.count {
            return Err(Error::new(ErrorKind::InvalidLength, self.base));
        }
        proof {
            use_type_invariant(self);
            lemma_elements_decode(
                self@.start(),
                self@.count,
                self@.depth as nat,
                index as nat,
            );
        }
        let mut r = Reader::with_base(self.raw, self.base);
        let mut i: usize = 0;
        while i < index
            invariant
                i <= index,
                p_skip_n(self@.start(), index as nat, self.depth as nat) == p_skip_n(
                    r@,
                    (index - i) as nat,
                    self.depth as nat,
                ),
                p_skip_n(self@.start(), index as nat, self.depth as nat) is Ok,
            decreases index - i,
        {
            Data::skip(&mut r, self.depth)?;
            i = i + 1;
        }
        Data::decode_at(&mut r, self.depth)
    }
}

/// A walk over the elements of a [`DataSeq`].
#[derive(Debug, Clone)]
pub struct SeqIter<'a> {
    reader: Reader<'a>,
    left: usize,
    depth: u8,
}

impl<'a> SeqIter<'a> {
    /// Where the walk stands.
    pub closed spec fn cursor(&self) -> Cursor {
        self.reader@
    }

    /// How many elements are left.
    pub closed spec fn left(&self) -> nat {
        self.left as nat
    }

    /// How deep the elements sit.
    pub closed spec fn level(&self) -> u8 {
        self.depth
    }

    /// How many elements are left.
    #[must_use]
    pub fn len(&self) -> (n: usize)
        ensures
            n == self.left(),
    {
        self.left
    }

    /// The next element, and the walk moved past it.
    pub fn next(&mut self) -> (r: Option<Result<Data<'a>>>)
        ensures
            final(self).level() == old(self).level(),
            match r {
                None => old(self).left() == 0 && final(self).left() == 0 && final(self).cursor()
                    == old(self).cursor(),
                Some(v) => old(self).left() > 0 && final(self).left() == old(self).left() - 1
                    && match v {
                    Ok(d) => p_data(old(self).cursor(), old(self).level() as nat) == Ok::<
                        (DataV, Cursor),
                        Error,
                    >((d@, final(self).cursor())),
                    Err(e) => p_data(old(self).cursor(), old(self).level() as nat) == Err::<
                        (DataV, Cursor),
                        Error,
                    >(e),
                },
            },
    {
        if self.left == 0 {
            return None;
        }
        self.left = self.left - 1;
        Some(Data::decode_at(&mut self.reader, self.depth))
    }
}

impl<'a> Data<'a> {
    /// The tag this value encodes with.
    #[must_use]
    pub fn tag(&self) -> (t: DataTag)
        ensures
            t == self@.tag(),
    {
        match self {
            Data::Null => DataTag::NullData,
            Data::Array(_) => DataTag::Array,
            Data::Structure(_) => DataTag::Structure,
            Data::Boolean(_) => DataTag::Boolean,
            Data::BitString(_) => DataTag::BitString,
            Data::DoubleLong(_) => DataTag::DoubleLong,
            Data::DoubleLongUnsigned(_) => DataTag::DoubleLongUnsigned,
            Data::OctetString(_) => DataTag::OctetString,
            Data::VisibleString(_) => DataTag::VisibleString,
            Data::Utf8String(_) => DataTag::Utf8String,
            Data::Bcd(_) => DataTag::Bcd,
            Data::Integer(_) => DataTag::Integer,
            Data::Long(_) => DataTag::Long,
            Data::Unsigned(_) => DataTag::Unsigned,
            Data::LongUnsigned(_) => DataTag::LongUnsigned,
            Data::CompactArray(_) => DataTag::CompactArray,
            Data::Long64(_) => DataTag::Long64,
            Data::Long64Unsigned(_) => DataTag::Long64Unsigned,
            Data::Enum(_) => DataTag::Enum,
            Data::Float32(_) => DataTag::Float32,
            Data::Float64(_) => DataTag::Float64,
            Data::DateTime(_) => DataTag::DateTime,
            Data::Date(_) => DataTag::Date,
            Data::Time(_) => DataTag::Time,
            Data::DeltaInteger(_) => DataTag::DeltaInteger,
            Data::DeltaLong(_) => DataTag::DeltaLong,
            Data::DeltaDoubleLong(_) => DataTag::DeltaDoubleLong,
            Data::DeltaUnsigned(_) => DataTag::DeltaUnsigned,
            Data::DeltaLongUnsigned(_) => DataTag::DeltaLongUnsigned,
            Data::DeltaDoubleLongUnsigned(_) => DataTag::DeltaDoubleLongUnsigned,
            Data::DontCare => DataTag::DontCare,
        }
    }

    /// Decode the elements of an array or a structure: how many, and the bytes they span.
    #[verifier::loop_isolation(false)]
    fn elements(r: &mut Reader<'a>, depth: u8) -> (res: Result<DataSeq<'a>>)
        requires
            depth < MAX_DEPTH,
        ensures
            final(r)@.same_input(old(r)@),
            match res {
                Ok(s) => p_body(old(r)@, DataTag::Array, depth as nat) == Ok::<
                    (DataV, Cursor),
                    Error,
                >((DataV::Array(s@), final(r)@)),
                Err(e) => p_body(old(r)@, DataTag::Array, depth as nat) == Err::<
                    (DataV, Cursor),
                    Error,
                >(e),
            },
    {
        let count = r.length()?;
        let base = r.offset();
        let start = r.consumed();
        let mut probe = r.clone();
        let ghost c0 = r@;
        let mut i: usize = 0;
        while i < count
            invariant
                i <= count,
                depth < MAX_DEPTH,
                probe@.same_input(c0),
                p_skip_n(c0, count as nat, (depth + 1) as nat) == p_skip_n(
                    probe@,
                    (count - i) as nat,
                    (depth + 1) as nat,
                ),
            decreases count - i,
        {
            Data::skip(&mut probe, depth + 1)?;
            i = i + 1;
        }
        proof {
            lemma_skip_adv(c0, count as nat, (depth + 1) as nat);
        }
        let raw = r.take(probe.consumed() - start)?;
        proof {
            let k = Cursor { buf: raw@, pos: 0, base: base as nat };
            let n = probe@.pos - c0.pos;
            assert(k.peek(n as nat) =~= raw@);
            lemma_skip_local(c0, k, count as nat, (depth + 1) as nat, (depth + 1) as nat);
        }
        Ok(DataSeq { count, raw, base, depth: depth + 1 })
    }

    /// Decode one value with the depth budget already spent by enclosing sequences.
    pub fn decode_at(r: &mut Reader<'a>, depth: u8) -> (res: Result<Self>)
        ensures
            final(r)@.same_input(old(r)@),
            match res {
                Ok(v) => p_data(old(r)@, depth as nat) == Ok::<(DataV, Cursor), Error>(
                    (v@, final(r)@),
                ),
                Err(e) => p_data(old(r)@, depth as nat) == Err::<(DataV, Cursor), Error>(e),
            },
    {
        if depth >= MAX_DEPTH {
            return Err(r.err(ErrorKind::DepthExceeded));
        }
        let tag_byte = r.u8()?;
        let tag = match DataTag::from_u8(tag_byte) {
            Some(t) => t,
            None => return Err(r.err_back(ErrorKind::InvalidTag(tag_byte), 1)),
        };
        match tag {
            DataTag::Array => Ok(Data::Array(Data::elements(r, depth)?)),
            DataTag::Structure => Ok(Data::Structure(Data::elements(r, depth)?)),
            DataTag::CompactArray => {
                let c = CompactArray::decode_body(r, depth + 1)?;
                Ok(Data::CompactArray(c))
            },
            _ => leaf(r, tag),
        }
    }

    /// Walk one value without building it, to find where it ends.
    ///
    /// It ends, or fails, exactly where decoding it does.
    #[verifier::loop_isolation(false)]
    pub fn skip(r: &mut Reader<'a>, depth: u8) -> (res: Result<()>)
        ensures
            final(r)@.same_input(old(r)@),
            match res {
                Ok(_) => p_data(old(r)@, depth as nat) matches Ok((_, d)) && d == final(r)@,
                Err(e) => p_data(old(r)@, depth as nat) == Err::<(DataV, Cursor), Error>(e),
            },
        decreases 16 - depth,
    {
        if depth >= MAX_DEPTH {
            return Err(r.err(ErrorKind::DepthExceeded));
        }
        let tag_byte = r.u8()?;
        let tag = match DataTag::from_u8(tag_byte) {
            Some(t) => t,
            None => return Err(r.err_back(ErrorKind::InvalidTag(tag_byte), 1)),
        };
        proof {
            reveal(p_leaf);
        }
        if let Some(n) = tag.fixed_len() {
            return r.skip(n);
        }
        match tag {
            DataTag::Array | DataTag::Structure => {
                let count = r.length()?;
                let ghost c0 = r@;
                let mut i: usize = 0;
                while i < count
                    invariant
                        i <= count,
                        depth < MAX_DEPTH,
                        r@.same_input(c0),
                        p_skip_n(c0, count as nat, (depth + 1) as nat) == p_skip_n(
                            r@,
                            (count - i) as nat,
                            (depth + 1) as nat,
                        ),
                    decreases count - i,
                {
                    Data::skip(r, depth + 1)?;
                    i = i + 1;
                }
                Ok(())
            },
            DataTag::BitString => {
                let bits = r.length()?;
                r.skip(div_ceil_8(bits))
            },
            DataTag::CompactArray => CompactArray::skip_body(r, depth + 1),
            _ => {
                let n = r.length()?;
                r.skip(n)
            },
        }
    }

    /// The value as an integer, for any of the signed or unsigned integer tags and for
    /// an enumeration.
    ///
    /// Returns `None` for a value that is not an integer, and for a `u64` that does not
    /// fit.
    #[must_use]
    pub fn as_i64(&self) -> (r: Option<i64>)
        ensures
            r == (match self@.integer() {
                Some(v) => if v <= i64::MAX {
                    Some(v as i64)
                } else {
                    None
                },
                None => None::<i64>,
            }),
    {
        match *self {
            Data::Integer(v) | Data::DeltaInteger(v) => Some(v as i64),
            Data::Long(v) | Data::DeltaLong(v) => Some(v as i64),
            Data::DoubleLong(v) | Data::DeltaDoubleLong(v) => Some(v as i64),
            Data::Long64(v) => Some(v),
            Data::Unsigned(v) | Data::DeltaUnsigned(v) => Some(v as i64),
            Data::LongUnsigned(v) | Data::DeltaLongUnsigned(v) => Some(v as i64),
            Data::DoubleLongUnsigned(v) | Data::DeltaDoubleLongUnsigned(v) => Some(v as i64),
            Data::Long64Unsigned(v) => if v <= 0x7FFF_FFFF_FFFF_FFFF {
                Some(v as i64)
            } else {
                None
            },
            Data::Enum(v) => Some(v as i64),
            _ => None,
        }
    }

    /// The value as an unsigned integer, when it is one and is not negative.
    #[must_use]
    pub fn as_u64(&self) -> (r: Option<u64>)
        ensures
            r == (match self@.integer() {
                Some(v) => if v >= 0 {
                    Some(v as u64)
                } else {
                    None
                },
                None => None::<u64>,
            }),
    {
        match *self {
            Data::Long64Unsigned(v) => Some(v),
            _ => match self.as_i64() {
                Some(v) => if v >= 0 {
                    Some(v as u64)
                } else {
                    None
                },
                None => None,
            },
        }
    }

    /// The decimal value of a binary-coded-decimal byte.
    ///
    /// `bcd` is *not* an integer, and this is deliberately not part of
    /// [`Data::as_i64`]: the byte `0x25` is the number twenty-five.
    ///
    /// `None` when either nibble is not a decimal digit.
    #[must_use]
    pub fn as_bcd(&self) -> (r: Option<u8>)
        ensures
            r == (match self@ {
                DataV::Bcd(v) => {
                    let (high, low) = ((v as u8) / 16, (v as u8) % 16);
                    if high <= 9 && low <= 9 {
                        Some((high * 10 + low) as u8)
                    } else {
                        None
                    }
                },
                _ => None::<u8>,
            }),
    {
        match *self {
            Data::Bcd(v) => {
                let b: u8 = v as u8;
                let high: u8 = b / 16;
                let low: u8 = b % 16;
                if high > 9 || low > 9 {
                    return None;
                }
                Some(high * 10 + low)
            },
            _ => None,
        }
    }

    /// The value as a `bool`.
    #[must_use]
    pub fn as_bool(&self) -> (r: Option<bool>)
        ensures
            r == (match self@ {
                DataV::Boolean(v) => Some(v),
                _ => None::<bool>,
            }),
    {
        match *self {
            Data::Boolean(v) => Some(v),
            _ => None,
        }
    }

    /// The bytes of an octet string or either string type.
    #[must_use]
    pub fn as_bytes(&self) -> (r: Option<&'a [u8]>)
        ensures
            match r {
                Some(b) => self@.string() == Some(b@),
                None => self@.string() is None,
            },
    {
        match *self {
            Data::OctetString(b) | Data::VisibleString(b) | Data::Utf8String(b) => Some(b),
            _ => None,
        }
    }

    /// A string value, validated as UTF-8 here rather than at decode time.
    #[must_use]
    pub fn as_str(&self) -> (r: Option<&'a str>)
        ensures
            match r {
                Some(s) => self@.string() == Some(s.spec_bytes()),
                None => self@.string() matches Some(b) ==> !vstd::utf8::valid_utf8(b),
            },
    {
        match self.as_bytes() {
            Some(b) => utf8(b),
            None => None,
        }
    }

    /// The elements of an array or structure.
    #[must_use]
    pub fn as_seq(&self) -> (r: Option<DataSeq<'a>>)
        ensures
            match r {
                Some(s) => self@ == DataV::Array(s@) || self@ == DataV::Structure(s@),
                None => !(self@ is Array) && !(self@ is Structure),
            },
    {
        match *self {
            Data::Array(s) | Data::Structure(s) => Some(s),
            _ => None,
        }
    }

    /// The elements of a structure, refusing an array.
    #[must_use]
    pub fn as_structure(&self) -> (r: Option<DataSeq<'a>>)
        ensures
            match r {
                Some(s) => self@ == DataV::Structure(s@),
                None => !(self@ is Structure),
            },
    {
        match *self {
            Data::Structure(s) => Some(s),
            _ => None,
        }
    }

    /// The elements of an array, refusing a structure.
    #[must_use]
    pub fn as_array(&self) -> (r: Option<DataSeq<'a>>)
        ensures
            match r {
                Some(s) => self@ == DataV::Array(s@),
                None => !(self@ is Array),
            },
    {
        match *self {
            Data::Array(s) => Some(s),
            _ => None,
        }
    }

    /// Field `index` of a structure.
    ///
    /// # Errors
    /// [`ErrorKind::InvalidValue`] when this is not a structure,
    /// [`ErrorKind::InvalidLength`] when it has no such field.
    pub fn field(&self, index: usize) -> (r: Result<Data<'a>>)
        ensures
            match r {
                Ok(v) => self@ matches DataV::Structure(s) && index < s.count && (p_nth(
                    s.start(),
                    index as nat,
                    s.depth as nat,
                ) matches Ok((w, _)) && w == v@),
                Err(e) => match self@ {
                    DataV::Structure(s) => index >= s.count && e == (Error {
                        kind: ErrorKind::InvalidLength,
                        offset: s.base,
                    }),
                    _ => e == (Error { kind: ErrorKind::InvalidValue, offset: 0 }),
                },
            },
    {
        match self.as_structure() {
            Some(s) => s.get(index),
            None => Err(Error::new(ErrorKind::InvalidValue, 0)),
        }
    }

    /// A six-byte string read as a logical name.
    #[must_use]
    pub fn as_obis(&self) -> (r: Option<Obis>)
        ensures
            match r {
                Some(o) => self@.string() == Some(o@),
                None => self@.string() matches Some(b) ==> b.len() != 6,
            },
    {
        match self.as_bytes() {
            Some(b) => match Obis::from_octet_string(b, 0) {
                Ok(o) => Some(o),
                Err(_) => None,
            },
            None => None,
        }
    }

    /// True for one of the six delta types.
    #[must_use]
    pub fn is_delta(&self) -> (r: bool)
        ensures
            r == self@.tag().delta(),
    {
        self.tag().is_delta()
    }

    /// Decode a value that borrows `bytes`, requiring all of them to be used.
    pub fn from_bytes_in(bytes: &'a [u8]) -> (res: Result<Self>)
        ensures
            match res {
                Ok(v) => whole(p_data(Cursor::start(bytes@), 0)) == Ok::<DataV, Error>(v@),
                Err(e) => whole(p_data(Cursor::start(bytes@), 0)) == Err::<DataV, Error>(e),
            },
    {
        <Self as Decode<'a>>::from_bytes(bytes)
    }
}

impl<'a> Encode for Data<'a> {
    open spec fn enc(&self) -> Seq<u8> {
        self@.enc()
    }

    open spec fn encodable(&self) -> bool {
        self@.encodable()
    }

    fn encode<W: Writer>(&self, w: &mut W) -> (r: Result<()>) {
        let ghost w0 = w.sink();
        w.write_u8(self.tag().as_u8())?;
        let ghost w1 = w.sink();
        let r = self.encode_body(w);
        proof {
            lemma_then(
                w0,
                w1,
                w.sink(),
                seq![self@.tag().code()],
                self@.body(),
                self@.encodable(),
                r,
            );
        }
        r
    }
}

impl<'a> Data<'a> {
    /// Append the encoding of a value, behind its tag.
    fn encode_body<W: Writer>(&self, w: &mut W) -> (r: Result<()>)
        ensures
            appended(old(w).sink(), final(w).sink(), self@.body(), self@.encodable(), r),
    {
        let ghost w0 = w.sink();
        let r = match *self {
            Data::Null | Data::DontCare => Ok(()),
            Data::Array(s) | Data::Structure(s) => {
                w.write_length(s.len())?;
                w.write_bytes(s.as_bytes())
            },
            Data::Boolean(v) => w.write_u8(if v { 1u8 } else { 0u8 }),
            Data::BitString(b) => {
                w.write_length(b.len())?;
                w.write_bytes(b.as_bytes())
            },
            Data::OctetString(b) | Data::VisibleString(b) | Data::Utf8String(b) => {
                w.write_length_prefixed(b)
            },
            Data::CompactArray(c) => c.encode_body(w),
            Data::DateTime(v) => {
                let b = v.to_bytes();
                w.write_bytes(b.as_slice())
            },
            Data::Date(v) => {
                let b = v.to_bytes();
                w.write_bytes(b.as_slice())
            },
            Data::Time(v) => {
                let b = v.to_bytes();
                w.write_bytes(b.as_slice())
            },
            Data::DoubleLong(v) => w.write_u32(v as u32),
            Data::DoubleLongUnsigned(v) => w.write_u32(v),
            Data::Bcd(v) => w.write_u8(v as u8),
            Data::Integer(v) => w.write_u8(v as u8),
            Data::Long(v) => w.write_u16(v as u16),
            Data::Unsigned(v) => w.write_u8(v),
            Data::LongUnsigned(v) => w.write_u16(v),
            Data::Long64(v) => w.write_u64(v as u64),
            Data::Long64Unsigned(v) => w.write_u64(v),
            Data::Enum(v) => w.write_u8(v),
            Data::Float32(v) => w.write_u32(v),
            Data::Float64(v) => w.write_u64(v),
            Data::DeltaInteger(v) => w.write_u8(v as u8),
            Data::DeltaLong(v) => w.write_u16(v as u16),
            Data::DeltaDoubleLong(v) => w.write_u32(v as u32),
            Data::DeltaUnsigned(v) => w.write_u8(v),
            Data::DeltaLongUnsigned(v) => w.write_u16(v),
            Data::DeltaDoubleLongUnsigned(v) => w.write_u32(v),
        };
        assert(r is Ok ==> w.sink().bytes =~= w0.bytes + self@.body());
        r
    }
}

impl<'a> Decode<'a> for Data<'a> {
    open spec fn parse(c: Cursor) -> Result<(DataV, Cursor)> {
        p_data(c, 0)
    }

    fn decode(r: &mut Reader<'a>) -> (res: Result<Self>) {
        Data::decode_at(r, 0)
    }
}

/// A plain value takes no more bytes than there are.
pub proof fn lemma_leaf_adv(c: Cursor, tag: DataTag)
    requires
        c.wf(),
    ensures
        p_leaf(c, tag) matches Ok((_, d)) ==> d.same_input(c) && c.pos <= d.pos && d.wf(),
{
    reveal(p_leaf);
}

/// A plain value holds no others.
pub proof fn lemma_leaf_is_plain(c: Cursor, tag: DataTag)
    ensures
        p_leaf(c, tag) matches Ok((v, _)) ==> !(v is Array) && !(v is Structure) && !(
        v is CompactArray),
{
    reveal(p_leaf);
}

/// A value takes at least one byte, and no more than there are.
pub proof fn lemma_data_adv(c: Cursor, depth: nat)
    requires
        c.wf(),
    ensures
        p_data(c, depth) matches Ok((_, d)) ==> d.same_input(c) && c.pos < d.pos && d.wf(),
    decreases 16 - depth, 0nat,
{
    if depth < MAX_DEPTH {
        match p_u8(c) {
            Ok((b, d)) => match tag_of(b) {
                Some(tag) => {
                    if tag is Array || tag is Structure {
                        match p_length(d) {
                            Ok((n, f)) => lemma_skip_adv(f, n, depth + 1),
                            Err(_) => {},
                        }
                    } else if tag is CompactArray {
                        lemma_compact_adv(d, depth + 1);
                    } else {
                        lemma_leaf_adv(d, tag);
                    }
                },
                None => {},
            },
            Err(_) => {},
        }
    }
}

/// Values in a row take no more bytes than there are.
pub proof fn lemma_skip_adv(c: Cursor, n: nat, depth: nat)
    requires
        c.wf(),
    ensures
        p_skip_n(c, n, depth) matches Ok(d) ==> d.same_input(c) && c.pos <= d.pos && d.wf(),
    decreases 16 - depth, n + 1,
{
    if n > 0 {
        lemma_data_adv(c, depth);
        match p_data(c, depth) {
            Ok((_, d)) => lemma_skip_adv(d, (n - 1) as nat, depth),
            Err(_) => {},
        }
    }
}

/// A plain value decodes from its own bytes alone.
pub proof fn lemma_leaf_local(c: Cursor, k: Cursor, tag: DataTag)
    requires
        c.wf(),
        p_leaf(c, tag) matches Ok((_, d)) && alike(c, k, d.pos - c.pos),
    ensures
        ({
            let (v, d) = p_leaf(c, tag)->Ok_0;
            p_leaf(k, tag) == Ok::<(DataV, Cursor), Error>((v, k.adv((d.pos - c.pos) as nat)))
        }),
{
    reveal(p_leaf);
    let (v, d) = p_leaf(c, tag)->Ok_0;
    let n = d.pos - c.pos;
    lemma_leaf_adv(c, tag);
    lemma_alike(c, k, n, n);
    match tag {
        DataTag::BitString | DataTag::OctetString | DataTag::VisibleString | DataTag::Utf8String => {
            let (_, f) = p_length(c)->Ok_0;
            let m = f.pos - c.pos;
            lemma_alike(c, k, n, m);
            lemma_length_local(c, k);
            lemma_alike(f, k.adv(m as nat), n - m, n - m);
        },
        DataTag::NullData | DataTag::DontCare => {
            assert(k.adv(0) =~= k);
        },
        _ => {},
    }
}

/// A value decodes from its own bytes alone, at its depth or a lesser one.
pub proof fn lemma_data_local(c: Cursor, k: Cursor, depth: nat, less: nat)
    requires
        less <= depth,
        c.wf(),
        p_data(c, depth) matches Ok((_, d)) && alike(c, k, d.pos - c.pos),
    ensures
        ({
            let (v, d) = p_data(c, depth)->Ok_0;
            &&& p_data(k, less) matches Ok((w, e)) && w.same(v) && e == k.adv(
                (d.pos - c.pos) as nat,
            ) && (less == depth && clip(c.at()) == clip(k.at()) ==> w == v)
        }),
    decreases 16 - depth, 0nat,
{
    let (v, d) = p_data(c, depth)->Ok_0;
    let n = d.pos - c.pos;
    lemma_data_adv(c, depth);
    lemma_alike(c, k, n, 1);
    let (c1, k1) = (c.adv(1), k.adv(1));
    let tag = tag_of(c.buf[c.pos as int])->0;
    if tag is Array || tag is Structure {
        let (count, f) = p_length(c1)->Ok_0;
        let m = f.pos - c1.pos;
        lemma_skip_adv(f, count, depth + 1);
        lemma_alike(c1, k1, n - 1, m);
        lemma_length_local(c1, k1);
        lemma_skip_local(f, k1.adv(m as nat), count, depth + 1, less + 1);
        lemma_alike(f, k1.adv(m as nat), n - 1 - m, n - 1 - m);
    } else if tag is CompactArray {
        lemma_compact_local(c1, k1, depth + 1, less + 1);
    } else {
        lemma_leaf_local(c1, k1, tag);
    }
}

/// Values in a row decode from their own bytes alone.
pub proof fn lemma_skip_local(c: Cursor, k: Cursor, n: nat, depth: nat, less: nat)
    requires
        less <= depth,
        c.wf(),
        p_skip_n(c, n, depth) matches Ok(d) && alike(c, k, d.pos - c.pos),
    ensures
        ({
            let d = p_skip_n(c, n, depth)->Ok_0;
            p_skip_n(k, n, less) == Ok::<Cursor, Error>(k.adv((d.pos - c.pos) as nat))
        }),
    decreases 16 - depth, n + 1,
{
    let d = p_skip_n(c, n, depth)->Ok_0;
    if n > 0 {
        let (_, f) = p_data(c, depth)->Ok_0;
        lemma_data_adv(c, depth);
        lemma_skip_adv(f, (n - 1) as nat, depth);
        let m = f.pos - c.pos;
        lemma_alike(c, k, d.pos - c.pos, m);
        lemma_data_local(c, k, depth, less);
        lemma_skip_local(f, k.adv(m as nat), (n - 1) as nat, depth, less);
        assert(k.adv(m as nat).adv((d.pos - f.pos) as nat) =~= k.adv((d.pos - c.pos) as nat));
    } else {
        assert(k.adv(0) =~= k);
    }
}

/// Where a run of values decodes, each of its elements does.
pub proof fn lemma_elements_decode(c: Cursor, n: nat, depth: nat, i: nat)
    requires
        p_skip_n(c, n, depth) is Ok,
        i < n,
    ensures
        p_skip_n(c, i, depth) is Ok,
        p_nth(c, i, depth) is Ok,
    decreases n,
{
    let (_, d) = p_data(c, depth)->Ok_0;
    if i > 0 {
        lemma_elements_decode(d, (n - 1) as nat, depth, (i - 1) as nat);
    }
}

/// Every element of a sequence decodes, and asking for it gives it.
pub proof fn law_every_element_decodes(s: SeqV, i: nat)
    requires
        s.valid(),
        i < s.count,
    ensures
        p_nth(s.start(), i, s.depth as nat) is Ok,
{
    lemma_elements_decode(s.start(), s.count, s.depth as nat, i);
}

/// What an owned value is.
#[verifier::ext_equal]
pub enum TreeV {
    Null,
    Array(Seq<TreeV>),
    Structure(Seq<TreeV>),
    Boolean(bool),
    BitString { bits: nat, bytes: Seq<u8> },
    DoubleLong(i32),
    DoubleLongUnsigned(u32),
    OctetString(Seq<u8>),
    VisibleString(Seq<u8>),
    Utf8String(Seq<u8>),
    Bcd(i8),
    Integer(i8),
    Long(i16),
    Unsigned(u8),
    LongUnsigned(u16),
    Long64(i64),
    Long64Unsigned(u64),
    Enum(u8),
    Float32(u32),
    Float64(u64),
    DateTime(DateTime),
    Date(Date),
    Time(Time),
    DeltaInteger(i8),
    DeltaLong(i16),
    DeltaDoubleLong(i32),
    DeltaUnsigned(u8),
    DeltaLongUnsigned(u16),
    DeltaDoubleLongUnsigned(u32),
    DontCare,
}

/// A plain value as an owned one.
pub open spec fn tree_leaf(v: DataV) -> TreeV {
    match v {
        DataV::Null => TreeV::Null,
        DataV::Boolean(v) => TreeV::Boolean(v),
        DataV::BitString(b) => TreeV::BitString { bits: b.bits, bytes: b.bytes },
        DataV::DoubleLong(v) => TreeV::DoubleLong(v),
        DataV::DoubleLongUnsigned(v) => TreeV::DoubleLongUnsigned(v),
        DataV::OctetString(b) => TreeV::OctetString(b),
        DataV::VisibleString(b) => TreeV::VisibleString(b),
        DataV::Utf8String(b) => TreeV::Utf8String(b),
        DataV::Bcd(v) => TreeV::Bcd(v),
        DataV::Integer(v) => TreeV::Integer(v),
        DataV::Long(v) => TreeV::Long(v),
        DataV::Unsigned(v) => TreeV::Unsigned(v),
        DataV::LongUnsigned(v) => TreeV::LongUnsigned(v),
        DataV::Long64(v) => TreeV::Long64(v),
        DataV::Long64Unsigned(v) => TreeV::Long64Unsigned(v),
        DataV::Enum(v) => TreeV::Enum(v),
        DataV::Float32(v) => TreeV::Float32(v),
        DataV::Float64(v) => TreeV::Float64(v),
        DataV::DateTime(v) => TreeV::DateTime(v),
        DataV::Date(v) => TreeV::Date(v),
        DataV::Time(v) => TreeV::Time(v),
        DataV::DeltaInteger(v) => TreeV::DeltaInteger(v),
        DataV::DeltaLong(v) => TreeV::DeltaLong(v),
        DataV::DeltaDoubleLong(v) => TreeV::DeltaDoubleLong(v),
        DataV::DeltaUnsigned(v) => TreeV::DeltaUnsigned(v),
        DataV::DeltaLongUnsigned(v) => TreeV::DeltaLongUnsigned(v),
        DataV::DeltaDoubleLongUnsigned(v) => TreeV::DeltaDoubleLongUnsigned(v),
        _ => TreeV::DontCare,
    }
}

/// How deep the elements of a value sit; past the deepest for a value without any.
pub open spec fn level(v: DataV) -> nat {
    match v {
        DataV::Array(s) | DataV::Structure(s) => s.depth as nat,
        _ => 17,
    }
}

/// How many levels are left below one.
pub open spec fn levels_below(depth: nat) -> nat {
    if depth <= 17 {
        (17 - depth) as nat
    } else {
        0
    }
}

/// A value as an owned tree. A compact array is expanded into an array of its rows,
/// because the compact encoding is a transfer syntax rather than a distinct type.
pub open spec fn tree_of(v: DataV) -> Result<TreeV>
    decreases levels_below(level(v)), 1nat, 0nat,
{
    match v {
        DataV::Array(s) => match trees_of(s.start(), s.count, s.depth as nat) {
            Err(e) => Err(e),
            Ok(ts) => Ok(TreeV::Array(ts)),
        },
        DataV::Structure(s) => match trees_of(s.start(), s.count, s.depth as nat) {
            Err(e) => Err(e),
            Ok(ts) => Ok(TreeV::Structure(ts)),
        },
        DataV::CompactArray(c) => match c.trees() {
            Err(e) => Err(e),
            Ok(ts) => Ok(TreeV::Array(ts)),
        },
        _ => Ok(tree_leaf(v)),
    }
}

/// The trees of `n` values in a row.
pub open spec fn trees_of(c: Cursor, n: nat, depth: nat) -> Result<Seq<TreeV>>
    decreases levels_below(depth), 0nat, n,
{
    if n == 0 {
        Ok(Seq::empty())
    } else {
        match p_data(c, depth) {
            Err(e) => Err(e),
            Ok((v, d)) => {
                proof {
                    lemma_level(c, depth);
                }
                match tree_of(v) {
                    Err(e) => Err(e),
                    Ok(t) => match trees_of(d, (n - 1) as nat, depth) {
                        Err(e) => Err(e),
                        Ok(ts) => Ok(seq![t] + ts),
                    },
                }
            },
        }
    }
}

/// The elements of a value sit one level below it.
pub proof fn lemma_level(c: Cursor, depth: nat)
    ensures
        p_data(c, depth) matches Ok((v, _)) ==> depth < 16 && (level(v) == depth + 1 || level(v)
            == 17),
{
    reveal(p_leaf);
}

/// The encodings of the first `n` trees, one after another.
pub open spec fn enc_trees(ts: Seq<TreeV>, n: nat) -> Seq<u8>
    decreases ts, n,
{
    if n == 0 || n > ts.len() {
        Seq::empty()
    } else {
        enc_trees(ts, (n - 1) as nat) + ts[n - 1].enc()
    }
}

/// Whether the first `n` trees all have an encoding.
pub open spec fn fit_trees(ts: Seq<TreeV>, n: nat) -> bool
    decreases ts, n,
{
    if n == 0 || n > ts.len() {
        true
    } else {
        fit_trees(ts, (n - 1) as nat) && ts[n - 1].encodable()
    }
}

/// Every tree fits within `limit` levels of nesting.
pub open spec fn shallow_trees(ts: Seq<TreeV>, n: nat, limit: nat) -> bool
    decreases ts, n,
{
    if n == 0 || n > ts.len() {
        true
    } else {
        shallow_trees(ts, (n - 1) as nat, limit) && ts[n - 1].shallow(limit)
    }
}

impl TreeV {
    /// The tag byte of an owned value.
    pub open spec fn code(self) -> u8 {
        match self {
            TreeV::Null => 0,
            TreeV::Array(_) => 1,
            TreeV::Structure(_) => 2,
            TreeV::Boolean(_) => 3,
            TreeV::BitString { .. } => 4,
            TreeV::DoubleLong(_) => 5,
            TreeV::DoubleLongUnsigned(_) => 6,
            TreeV::OctetString(_) => 9,
            TreeV::VisibleString(_) => 10,
            TreeV::Utf8String(_) => 12,
            TreeV::Bcd(_) => 13,
            TreeV::Integer(_) => 15,
            TreeV::Long(_) => 16,
            TreeV::Unsigned(_) => 17,
            TreeV::LongUnsigned(_) => 18,
            TreeV::Long64(_) => 20,
            TreeV::Long64Unsigned(_) => 21,
            TreeV::Enum(_) => 22,
            TreeV::Float32(_) => 23,
            TreeV::Float64(_) => 24,
            TreeV::DateTime(_) => 25,
            TreeV::Date(_) => 26,
            TreeV::Time(_) => 27,
            TreeV::DeltaInteger(_) => 28,
            TreeV::DeltaLong(_) => 29,
            TreeV::DeltaDoubleLong(_) => 30,
            TreeV::DeltaUnsigned(_) => 31,
            TreeV::DeltaLongUnsigned(_) => 32,
            TreeV::DeltaDoubleLongUnsigned(_) => 33,
            TreeV::DontCare => 255,
        }
    }

    /// The encoding of an owned value, behind its tag.
    pub open spec fn body(self) -> Seq<u8>
        decreases self, 0nat,
    {
        match self {
            TreeV::Null | TreeV::DontCare => Seq::empty(),
            TreeV::Array(ts) => enc_length(ts.len()) + enc_trees(ts, ts.len()),
            TreeV::Structure(ts) => enc_length(ts.len()) + enc_trees(ts, ts.len()),
            TreeV::Boolean(v) => seq![if v { 1u8 } else { 0u8 }],
            TreeV::BitString { bits, bytes } => enc_length(bits) + bytes,
            TreeV::OctetString(b) | TreeV::VisibleString(b) | TreeV::Utf8String(b) => enc_prefixed(
                b,
            ),
            TreeV::DateTime(v) => v.wire(),
            TreeV::Date(v) => v.wire(),
            TreeV::Time(v) => v.wire(),
            TreeV::DoubleLong(v) => be_bytes((v as u32) as nat, 4),
            TreeV::DoubleLongUnsigned(v) => be_bytes((v) as nat, 4),
            TreeV::Bcd(v) => seq![v as u8],
            TreeV::Integer(v) => seq![v as u8],
            TreeV::Long(v) => be_bytes((v as u16) as nat, 2),
            TreeV::Unsigned(v) => seq![v],
            TreeV::LongUnsigned(v) => be_bytes((v) as nat, 2),
            TreeV::Long64(v) => be_bytes((v as u64) as nat, 8),
            TreeV::Long64Unsigned(v) => be_bytes((v) as nat, 8),
            TreeV::Enum(v) => seq![v],
            TreeV::Float32(v) => be_bytes((v) as nat, 4),
            TreeV::Float64(v) => be_bytes((v) as nat, 8),
            TreeV::DeltaInteger(v) => seq![v as u8],
            TreeV::DeltaLong(v) => be_bytes((v as u16) as nat, 2),
            TreeV::DeltaDoubleLong(v) => be_bytes((v as u32) as nat, 4),
            TreeV::DeltaUnsigned(v) => seq![v],
            TreeV::DeltaLongUnsigned(v) => be_bytes((v) as nat, 2),
            TreeV::DeltaDoubleLongUnsigned(v) => be_bytes((v) as nat, 4),
        }
    }

    /// The encoding of an owned value.
    pub open spec fn enc(self) -> Seq<u8>
        decreases self, 1nat,
    {
        seq![self.code()] + self.body()
    }

    /// Whether there is an encoding: every length fits in four bytes.
    pub open spec fn encodable(self) -> bool
        decreases self, 0nat,
    {
        match self {
            TreeV::Array(ts) => length_fits(ts.len()) && fit_trees(ts, ts.len()),
            TreeV::Structure(ts) => length_fits(ts.len()) && fit_trees(ts, ts.len()),
            TreeV::BitString { bits, bytes } => length_fits(bits),
            TreeV::OctetString(b) | TreeV::VisibleString(b) | TreeV::Utf8String(b) => length_fits(
                b.len(),
            ),
            _ => true,
        }
    }

    /// No more than `limit` levels of nesting, and bit strings of the right length.
    pub open spec fn shallow(self, limit: nat) -> bool
        decreases self, 0nat,
    {
        limit > 0 && match self {
            TreeV::Array(ts) => shallow_trees(ts, ts.len(), (limit - 1) as nat),
            TreeV::Structure(ts) => shallow_trees(ts, ts.len(), (limit - 1) as nat),
            TreeV::BitString { bits, bytes } => bytes.len() == bytes_for(bits),
            _ => true,
        }
    }
}

/// An owned `Data` tree.
#[derive(Debug, PartialEq)]
#[allow(missing_docs)]
pub enum DataBuf {
    Null,
    Array(Vec<DataBuf>),
    Structure(Vec<DataBuf>),
    Boolean(bool),
    BitString {
        /// Significant bits.
        bits: usize,
        /// Backing bytes.
        bytes: Vec<u8>,
    },
    DoubleLong(i32),
    DoubleLongUnsigned(u32),
    OctetString(Vec<u8>),
    VisibleString(Vec<u8>),
    Utf8String(Vec<u8>),
    Bcd(i8),
    Integer(i8),
    Long(i16),
    Unsigned(u8),
    LongUnsigned(u16),
    Long64(i64),
    Long64Unsigned(u64),
    Enum(u8),
    Float32(u32),
    Float64(u64),
    DateTime(DateTime),
    Date(Date),
    Time(Time),
    DeltaInteger(i8),
    DeltaLong(i16),
    DeltaDoubleLong(i32),
    DeltaUnsigned(u8),
    DeltaLongUnsigned(u16),
    DeltaDoubleLongUnsigned(u32),
    DontCare,
}

impl View for DataBuf {
    type V = TreeV;

    open spec fn view(&self) -> TreeV {
        self.tree()
    }
}

impl DataBuf {
    /// What an owned value is.
    pub open spec fn tree(&self) -> TreeV
        decreases self,
    {
        match self {
            DataBuf::Null => TreeV::Null,
            DataBuf::DontCare => TreeV::DontCare,
            DataBuf::Array(v) => TreeV::Array(
                Seq::new(
                    v@.len(),
                    |i: int|
                        if 0 <= i < v@.len() {
                            v@[i].tree()
                        } else {
                            TreeV::Null
                        },
                ),
            ),
            DataBuf::Structure(v) => TreeV::Structure(
                Seq::new(
                    v@.len(),
                    |i: int|
                        if 0 <= i < v@.len() {
                            v@[i].tree()
                        } else {
                            TreeV::Null
                        },
                ),
            ),
            DataBuf::Boolean(v) => TreeV::Boolean(*v),
            DataBuf::BitString { bits, bytes } => TreeV::BitString {
                bits: *bits as nat,
                bytes: bytes@,
            },
            DataBuf::DoubleLong(v) => TreeV::DoubleLong(*v),
            DataBuf::DoubleLongUnsigned(v) => TreeV::DoubleLongUnsigned(*v),
            DataBuf::OctetString(b) => TreeV::OctetString(b@),
            DataBuf::VisibleString(b) => TreeV::VisibleString(b@),
            DataBuf::Utf8String(b) => TreeV::Utf8String(b@),
            DataBuf::Bcd(v) => TreeV::Bcd(*v),
            DataBuf::Integer(v) => TreeV::Integer(*v),
            DataBuf::Long(v) => TreeV::Long(*v),
            DataBuf::Unsigned(v) => TreeV::Unsigned(*v),
            DataBuf::LongUnsigned(v) => TreeV::LongUnsigned(*v),
            DataBuf::Long64(v) => TreeV::Long64(*v),
            DataBuf::Long64Unsigned(v) => TreeV::Long64Unsigned(*v),
            DataBuf::Enum(v) => TreeV::Enum(*v),
            DataBuf::Float32(v) => TreeV::Float32(*v),
            DataBuf::Float64(v) => TreeV::Float64(*v),
            DataBuf::DateTime(v) => TreeV::DateTime(*v),
            DataBuf::Date(v) => TreeV::Date(*v),
            DataBuf::Time(v) => TreeV::Time(*v),
            DataBuf::DeltaInteger(v) => TreeV::DeltaInteger(*v),
            DataBuf::DeltaLong(v) => TreeV::DeltaLong(*v),
            DataBuf::DeltaDoubleLong(v) => TreeV::DeltaDoubleLong(*v),
            DataBuf::DeltaUnsigned(v) => TreeV::DeltaUnsigned(*v),
            DataBuf::DeltaLongUnsigned(v) => TreeV::DeltaLongUnsigned(*v),
            DataBuf::DeltaDoubleLongUnsigned(v) => TreeV::DeltaDoubleLongUnsigned(*v),
        }
    }

    /// Copy a borrowed value into an owned one.
    ///
    /// A compact array is expanded into an array of its rows, because the compact
    /// encoding is a transfer syntax rather than a distinct type.
    #[verifier::loop_isolation(false)]
    pub fn from_data(d: &Data<'_>) -> (r: Result<Self>)
        ensures
            match r {
                Ok(t) => tree_of(d@) == Ok::<TreeV, Error>(t@),
                Err(e) => tree_of(d@) == Err::<TreeV, Error>(e),
            },
        decreases levels_below(level(d@)), 1nat,
    {
        match *d {
            Data::Array(s) => {
                let v = DataBuf::from_seq(&s)?;
                proof {
                    lemma_views(v);
                }
                Ok(DataBuf::Array(v))
            },
            Data::Structure(s) => {
                let v = DataBuf::from_seq(&s)?;
                proof {
                    lemma_views(v);
                }
                Ok(DataBuf::Structure(v))
            },
            Data::CompactArray(c) => {
                let v = c.to_rows()?;
                proof {
                    lemma_views(v);
                }
                Ok(DataBuf::Array(v))
            },
            _ => Ok(DataBuf::from_leaf(d)),
        }
    }

    /// Copy the elements of a sequence.
    #[verifier::loop_isolation(false)]
    fn from_seq(s: &DataSeq<'_>) -> (r: Result<Vec<DataBuf>>)
        ensures
            match r {
                Ok(v) => trees_of(s@.start(), s@.count, s@.depth as nat) == Ok::<Seq<TreeV>, Error>(
                    views(v@),
                ),
                Err(e) => trees_of(s@.start(), s@.count, s@.depth as nat) == Err::<
                    Seq<TreeV>,
                    Error,
                >(e),
            },
        decreases levels_below(s@.depth as nat), 0nat,
    {
        let mut v: Vec<DataBuf> = Vec::new();
        let mut it = s.iter();
        let n = s.len();
        let mut i: usize = 0;
        let ghost want = trees_of(s@.start(), s@.count, s@.depth as nat);
        assert(views(v@) =~= Seq::<TreeV>::empty());
        proof {
            lemma_prepend_nothing(trees_of(it.cursor(), n as nat, s@.depth as nat));
        }
        while i < n
            invariant
                i <= n,
                it.left() == n - i,
                it.level() == s@.depth,
                want == prepend(views(v@), trees_of(it.cursor(), (n - i) as nat, s@.depth as nat)),
            decreases n - i,
        {
            let ghost c = it.cursor();
            proof {
                lemma_level(c, s@.depth as nat);
            }
            match it.next() {
                Some(e) => {
                    let d = e?;
                    let t = DataBuf::from_data(&d)?;
                    let ghost before = v@;
                    v.push(t);
                    proof {
                        assert(views(v@) =~= views(before).push(t@));
                        lemma_prepend_push(
                            views(before),
                            t@,
                            trees_of(it.cursor(), (n - i - 1) as nat, s@.depth as nat),
                        );
                    }
                },
                None => {},
            }
            i = i + 1;
        }
        assert(views(v@) + Seq::<TreeV>::empty() =~= views(v@));
        Ok(v)
    }

    /// Copy a plain value.
    pub(super) fn from_leaf(d: &Data<'_>) -> (t: Self)
        requires
            !(d@ is Array),
            !(d@ is Structure),
            !(d@ is CompactArray),
        ensures
            t@ == tree_leaf(d@),
    {
        match *d {
            Data::Null => DataBuf::Null,
            Data::Boolean(v) => DataBuf::Boolean(v),
            Data::BitString(b) => DataBuf::BitString {
                bits: b.len(),
                bytes: vstd::slice::slice_to_vec(b.as_bytes()),
            },
            Data::DoubleLong(v) => DataBuf::DoubleLong(v),
            Data::DoubleLongUnsigned(v) => DataBuf::DoubleLongUnsigned(v),
            Data::OctetString(b) => DataBuf::OctetString(vstd::slice::slice_to_vec(b)),
            Data::VisibleString(b) => DataBuf::VisibleString(vstd::slice::slice_to_vec(b)),
            Data::Utf8String(b) => DataBuf::Utf8String(vstd::slice::slice_to_vec(b)),
            Data::Bcd(v) => DataBuf::Bcd(v),
            Data::Integer(v) => DataBuf::Integer(v),
            Data::Long(v) => DataBuf::Long(v),
            Data::Unsigned(v) => DataBuf::Unsigned(v),
            Data::LongUnsigned(v) => DataBuf::LongUnsigned(v),
            Data::Long64(v) => DataBuf::Long64(v),
            Data::Long64Unsigned(v) => DataBuf::Long64Unsigned(v),
            Data::Enum(v) => DataBuf::Enum(v),
            Data::Float32(v) => DataBuf::Float32(v),
            Data::Float64(v) => DataBuf::Float64(v),
            Data::DateTime(v) => DataBuf::DateTime(v),
            Data::Date(v) => DataBuf::Date(v),
            Data::Time(v) => DataBuf::Time(v),
            Data::DeltaInteger(v) => DataBuf::DeltaInteger(v),
            Data::DeltaLong(v) => DataBuf::DeltaLong(v),
            Data::DeltaDoubleLong(v) => DataBuf::DeltaDoubleLong(v),
            Data::DeltaUnsigned(v) => DataBuf::DeltaUnsigned(v),
            Data::DeltaLongUnsigned(v) => DataBuf::DeltaLongUnsigned(v),
            Data::DeltaDoubleLongUnsigned(v) => DataBuf::DeltaDoubleLongUnsigned(v),
            _ => DataBuf::DontCare,
        }
    }

    /// Decode an owned value from bytes.
    pub fn parse(bytes: &[u8]) -> (r: Result<Self>)
        ensures
            match r {
                Ok(t) => parsed_tree(bytes@) == Ok::<TreeV, Error>(t@),
                Err(e) => parsed_tree(bytes@) == Err::<TreeV, Error>(e),
            },
    {
        let d = Data::from_bytes_in(bytes)?;
        DataBuf::from_data(&d)
    }

    /// Append the encoding.
    fn encode_tree<W: Writer>(&self, w: &mut W) -> (r: Result<()>)
        ensures
            appended(old(w).sink(), final(w).sink(), self@.enc(), self@.encodable(), r),
        decreases self, 1nat,
    {
        let ghost w0 = w.sink();
        let tag: u8 = match self {
            DataBuf::Null => 0,
            DataBuf::Array(_) => 1,
            DataBuf::Structure(_) => 2,
            DataBuf::Boolean(_) => 3,
            DataBuf::BitString { .. } => 4,
            DataBuf::DoubleLong(_) => 5,
            DataBuf::DoubleLongUnsigned(_) => 6,
            DataBuf::OctetString(_) => 9,
            DataBuf::VisibleString(_) => 10,
            DataBuf::Utf8String(_) => 12,
            DataBuf::Bcd(_) => 13,
            DataBuf::Integer(_) => 15,
            DataBuf::Long(_) => 16,
            DataBuf::Unsigned(_) => 17,
            DataBuf::LongUnsigned(_) => 18,
            DataBuf::Long64(_) => 20,
            DataBuf::Long64Unsigned(_) => 21,
            DataBuf::Enum(_) => 22,
            DataBuf::Float32(_) => 23,
            DataBuf::Float64(_) => 24,
            DataBuf::DateTime(_) => 25,
            DataBuf::Date(_) => 26,
            DataBuf::Time(_) => 27,
            DataBuf::DeltaInteger(_) => 28,
            DataBuf::DeltaLong(_) => 29,
            DataBuf::DeltaDoubleLong(_) => 30,
            DataBuf::DeltaUnsigned(_) => 31,
            DataBuf::DeltaLongUnsigned(_) => 32,
            DataBuf::DeltaDoubleLongUnsigned(_) => 33,
            DataBuf::DontCare => 255,
        };
        w.write_u8(tag)?;
        let ghost w1 = w.sink();
        let r = self.encode_tree_body(w);
        proof {
            assert(self@.code() == tag);
            lemma_then(w0, w1, w.sink(), seq![tag], self@.body(), self@.encodable(), r);
        }
        r
    }

    /// Append the encoding of elements, one after the other.
    #[verifier::loop_isolation(false)]
    fn encode_elements<W: Writer>(v: &Vec<DataBuf>, w: &mut W) -> (r: Result<()>)
        ensures
            appended(
                old(w).sink(),
                final(w).sink(),
                enc_trees(views(v@), v@.len()),
                fit_trees(views(v@), v@.len()),
                r,
            ),
        decreases v, 0nat,
    {
        let ghost w2 = w.sink();
        let ghost ts = views(v@);
        let n = v.len();
        let mut i: usize = 0;
        assert(w.sink() =~= w2.push(enc_trees(ts, 0)));
        while i < n
            invariant
                i <= n,
                w.sink() == w2.push(enc_trees(ts, i as nat)),
                w2.room(enc_trees(ts, i as nat).len()),
                fit_trees(ts, i as nat),
            decreases n - i,
        {
            assert(ts[i as int] == v@[i as int]@);
            assert(decreases_to!(*v => v@[i as int]));
            let ghost before = w.sink();
            let r = v[i].encode_tree(w);
            proof {
                lemma_enc_trees_grow(ts, (i + 1) as nat, ts.len());
                lemma_then(
                    w2,
                    before,
                    w.sink(),
                    enc_trees(ts, i as nat),
                    ts[i as int].enc(),
                    ts[i as int].encodable(),
                    r,
                );
            }
            match r {
                Ok(_) => {},
                Err(e) => {
                    proof {
                        lemma_stopped(
                            w2,
                            w.sink(),
                            enc_trees(ts, (i + 1) as nat),
                            enc_trees(ts, ts.len()),
                            ts[i as int].encodable(),
                            fit_trees(ts, ts.len()),
                            e,
                        );
                    }
                    return Err(e);
                },
            }
            i = i + 1;
        }
        Ok(())
    }

    /// Append the encoding, behind its tag.
    fn encode_tree_body<W: Writer>(&self, w: &mut W) -> (r: Result<()>)
        ensures
            appended(old(w).sink(), final(w).sink(), self@.body(), self@.encodable(), r),
        decreases self, 0nat,
    {
        let ghost w0 = w.sink();
        let r = match self {
            DataBuf::Null | DataBuf::DontCare => Ok(()),
            DataBuf::Array(v) | DataBuf::Structure(v) => {
                proof {
                    lemma_views(*v);
                }
                w.write_length(v.len())?;
                let ghost w1 = w.sink();
                let r = DataBuf::encode_elements(v, w);
                proof {
                    lemma_then(
                        w0,
                        w1,
                        w.sink(),
                        enc_length(v@.len()),
                        enc_trees(views(v@), v@.len()),
                        fit_trees(views(v@), v@.len()),
                        r,
                    );
                }
                r
            },
            DataBuf::Boolean(v) => w.write_u8(if *v { 1u8 } else { 0u8 }),
            DataBuf::BitString { bits, bytes } => {
                w.write_length(*bits)?;
                w.write_bytes(bytes.as_slice())
            },
            DataBuf::OctetString(b) | DataBuf::VisibleString(b) | DataBuf::Utf8String(b) => {
                w.write_length_prefixed(b.as_slice())
            },
            DataBuf::DateTime(v) => {
                let b = v.to_bytes();
                w.write_bytes(b.as_slice())
            },
            DataBuf::Date(v) => {
                let b = v.to_bytes();
                w.write_bytes(b.as_slice())
            },
            DataBuf::Time(v) => {
                let b = v.to_bytes();
                w.write_bytes(b.as_slice())
            },
            DataBuf::DoubleLong(v) => w.write_u32(*v as u32),
            DataBuf::DoubleLongUnsigned(v) => w.write_u32(*v),
            DataBuf::Bcd(v) => w.write_u8(*v as u8),
            DataBuf::Integer(v) => w.write_u8(*v as u8),
            DataBuf::Long(v) => w.write_u16(*v as u16),
            DataBuf::Unsigned(v) => w.write_u8(*v),
            DataBuf::LongUnsigned(v) => w.write_u16(*v),
            DataBuf::Long64(v) => w.write_u64(*v as u64),
            DataBuf::Long64Unsigned(v) => w.write_u64(*v),
            DataBuf::Enum(v) => w.write_u8(*v),
            DataBuf::Float32(v) => w.write_u32(*v),
            DataBuf::Float64(v) => w.write_u64(*v),
            DataBuf::DeltaInteger(v) => w.write_u8(*v as u8),
            DataBuf::DeltaLong(v) => w.write_u16(*v as u16),
            DataBuf::DeltaDoubleLong(v) => w.write_u32(*v as u32),
            DataBuf::DeltaUnsigned(v) => w.write_u8(*v),
            DataBuf::DeltaLongUnsigned(v) => w.write_u16(*v),
            DataBuf::DeltaDoubleLongUnsigned(v) => w.write_u32(*v),
        };
        assert(r is Ok ==> w.sink().bytes =~= w0.bytes + self@.body());
        r
    }
}

/// What a byte string decodes to, as an owned tree.
pub open spec fn parsed_tree(bytes: Seq<u8>) -> Result<TreeV> {
    match whole(p_data(Cursor::start(bytes), 0)) {
        Ok(v) => tree_of(v),
        Err(e) => Err(e),
    }
}

/// What owned values are, one by one.
pub open spec fn views(v: Seq<DataBuf>) -> Seq<TreeV> {
    Seq::new(
        v.len(),
        |i: int|
            if 0 <= i < v.len() {
                v[i].tree()
            } else {
                TreeV::Null
            },
    )
}

/// An array or a structure is what its elements are.
pub proof fn lemma_views(v: Vec<DataBuf>)
    ensures
        DataBuf::Array(v)@ == TreeV::Array(views(v@)),
        DataBuf::Structure(v)@ == TreeV::Structure(views(v@)),
{
    assert(DataBuf::Array(v)@->Array_0 =~= views(v@));
    assert(DataBuf::Structure(v)@->Structure_0 =~= views(v@));
}

/// A copy holds the same values.
impl Clone for DataBuf {
    fn clone(&self) -> (r: Self)
        ensures
            r@ == self@,
    {
        self.copied()
    }
}

impl DataBuf {
    /// The same value, in memory of its own.
    #[verifier::loop_isolation(false)]
    fn copied(&self) -> (r: Self)
        ensures
            r@ == self@,
        decreases self,
    {
        match self {
            DataBuf::Null => DataBuf::Null,
            DataBuf::DontCare => DataBuf::DontCare,
            DataBuf::Array(v) => {
                let mut out: Vec<DataBuf> = Vec::new();
                let mut i: usize = 0;
                while i < v.len()
                    invariant
                        i <= v@.len(),
                        *self == DataBuf::Array(*v),
                        views(out@) =~= views(v@).take(i as int),
                    decreases v@.len() - i,
                {
                    assert(decreases_to!(*self => v@[i as int]));
                    let t = v[i].copied();
                    let ghost before = out@;
                    out.push(t);
                    assert(views(out@) =~= views(before).push(t@));
                    i = i + 1;
                }
                proof {
                    assert(views(out@) =~= views(v@));
                    lemma_views(out);
                    lemma_views(*v);
                }
                DataBuf::Array(out)
            },
            DataBuf::Structure(v) => {
                let mut out: Vec<DataBuf> = Vec::new();
                let mut i: usize = 0;
                while i < v.len()
                    invariant
                        i <= v@.len(),
                        *self == DataBuf::Structure(*v),
                        views(out@) =~= views(v@).take(i as int),
                    decreases v@.len() - i,
                {
                    assert(decreases_to!(*self => v@[i as int]));
                    let t = v[i].copied();
                    let ghost before = out@;
                    out.push(t);
                    assert(views(out@) =~= views(before).push(t@));
                    i = i + 1;
                }
                proof {
                    assert(views(out@) =~= views(v@));
                    lemma_views(out);
                    lemma_views(*v);
                }
                DataBuf::Structure(out)
            },
            DataBuf::BitString { bits, bytes } => DataBuf::BitString {
                bits: *bits,
                bytes: vstd::slice::slice_to_vec(bytes.as_slice()),
            },
            DataBuf::OctetString(v) => DataBuf::OctetString(vstd::slice::slice_to_vec(v.as_slice())),
            DataBuf::VisibleString(v) => DataBuf::VisibleString(vstd::slice::slice_to_vec(v.as_slice())),
            DataBuf::Utf8String(v) => DataBuf::Utf8String(vstd::slice::slice_to_vec(v.as_slice())),
            DataBuf::Bcd(v) => DataBuf::Bcd(*v),
            DataBuf::Integer(v) => DataBuf::Integer(*v),
            DataBuf::Long(v) => DataBuf::Long(*v),
            DataBuf::Unsigned(v) => DataBuf::Unsigned(*v),
            DataBuf::LongUnsigned(v) => DataBuf::LongUnsigned(*v),
            DataBuf::Long64(v) => DataBuf::Long64(*v),
            DataBuf::Long64Unsigned(v) => DataBuf::Long64Unsigned(*v),
            DataBuf::Enum(v) => DataBuf::Enum(*v),
            DataBuf::Float32(v) => DataBuf::Float32(*v),
            DataBuf::Float64(v) => DataBuf::Float64(*v),
            DataBuf::DateTime(v) => DataBuf::DateTime(*v),
            DataBuf::Date(v) => DataBuf::Date(*v),
            DataBuf::Time(v) => DataBuf::Time(*v),
            DataBuf::DeltaInteger(v) => DataBuf::DeltaInteger(*v),
            DataBuf::DeltaLong(v) => DataBuf::DeltaLong(*v),
            DataBuf::DeltaDoubleLong(v) => DataBuf::DeltaDoubleLong(*v),
            DataBuf::DeltaUnsigned(v) => DataBuf::DeltaUnsigned(*v),
            DataBuf::DeltaLongUnsigned(v) => DataBuf::DeltaLongUnsigned(*v),
            DataBuf::DeltaDoubleLongUnsigned(v) => DataBuf::DeltaDoubleLongUnsigned(*v),
            DataBuf::Boolean(v) => DataBuf::Boolean(*v),
            DataBuf::DoubleLong(v) => DataBuf::DoubleLong(*v),
            DataBuf::DoubleLongUnsigned(v) => DataBuf::DoubleLongUnsigned(*v),
        }
    }
}

/// What follows, with what came before it in front.
pub open spec fn prepend<T>(front: Seq<T>, rest: Result<Seq<T>>) -> Result<Seq<T>> {
    match rest {
        Ok(s) => Ok(front + s),
        Err(e) => Err(e),
    }
}

pub proof fn lemma_prepend_nothing<T>(rest: Result<Seq<T>>)
    ensures
        prepend(Seq::empty(), rest) == rest,
{
    match rest {
        Ok(s) => {
            assert(Seq::<T>::empty() + s =~= s);
        },
        Err(_) => {},
    }
}

pub proof fn lemma_prepend_push<T>(front: Seq<T>, x: T, rest: Result<Seq<T>>)
    ensures
        prepend(front.push(x), rest) == prepend(front, prepend(seq![x], rest)),
{
    match rest {
        Ok(s) => {
            assert(front.push(x) + s =~= front + (seq![x] + s));
        },
        Err(_) => {},
    }
}

proof fn lemma_enc_trees_grow(ts: Seq<TreeV>, i: nat, n: nat)
    requires
        i <= n <= ts.len(),
    ensures
        enc_trees(ts, i).is_prefix_of(enc_trees(ts, n)),
        fit_trees(ts, n) ==> fit_trees(ts, i),
    decreases n,
{
    if i < n {
        lemma_enc_trees_grow(ts, i, (n - 1) as nat);
    }
}

impl Encode for DataBuf {
    open spec fn enc(&self) -> Seq<u8> {
        self@.enc()
    }

    open spec fn encodable(&self) -> bool {
        self@.encodable()
    }

    fn encode<W: Writer>(&self, w: &mut W) -> (r: Result<()>) {
        self.encode_tree(w)
    }
}

impl DataV {
    /// What every decoded value is: an array, a structure or a compact array holds
    /// exactly the values it says, and a bit string as many bytes as its bits need.
    pub open spec fn valid(self) -> bool {
        match self {
            DataV::Array(s) | DataV::Structure(s) => s.valid() && s.depth >= 1,
            DataV::BitString(b) => b.bytes.len() == bytes_for(b.bits),
            DataV::CompactArray(c) => c.valid() && c.depth >= 1,
            _ => true,
        }
    }
}

/// Two's complement loses nothing.
pub proof fn lemma_signed(a: i8, b: i16, c: i32, d: i64)
    ensures
        (a as u8) as i8 == a,
        (b as u16) as i16 == b,
        (c as u32) as i32 == c,
        (d as u64) as i64 == d,
{
    assert((a as u8) as i8 == a) by (bit_vector);
    assert((b as u16) as i16 == b) by (bit_vector);
    assert((c as u32) as i32 == c) by (bit_vector);
    assert((d as u64) as i64 == d) by (bit_vector);
}

/// A number reads back from its bytes.
proof fn lemma_be_at(c: Cursor, v: nat, n: nat)
    requires
        v < pow256(n),
        n <= c.left(),
        c.peek(n) == be_bytes(v, n),
    ensures
        p_be(c, n) == Ok::<(nat, Cursor), Error>((v, c.adv(n))),
{
    lemma_be_roundtrip(v, n);
}

/// A plain value reads back from its body.
#[verifier::rlimit(60)]
proof fn lemma_leaf_round_trip(c: Cursor, v: DataV)
    requires
        c.wf(),
        v.valid(),
        v.encodable(),
        !(v is Array),
        !(v is Structure),
        !(v is CompactArray),
        v.body().len() <= c.left(),
        c.peek(v.body().len()) == v.body(),
    ensures
        p_leaf(c, v.tag()) == Ok::<(DataV, Cursor), Error>((v, c.adv(v.body().len()))),
{
    reveal(p_leaf);
    lemma_pow256();
    let s = v.body();
    if s.len() > 0 {
        assert(c.buf[c.pos as int] == c.peek(s.len())[0]);
    }
    match v {
        DataV::Null | DataV::DontCare => {
            assert(c.adv(0) =~= c);
        },
        DataV::BitString(b) => {
            let n = enc_length(b.bits).len();
            assert(c.peek(n) =~= c.peek(s.len()).subrange(0, n as int));
            assert(s.subrange(0, n as int) =~= enc_length(b.bits));
            law_length_round_trip(c, b.bits);
            assert(c.adv(n).peek(b.bytes.len()) =~= c.peek(s.len()).subrange(
                n as int,
                s.len() as int,
            ));
            assert(s.subrange(n as int, s.len() as int) =~= b.bytes);
        },
        DataV::OctetString(b) | DataV::VisibleString(b) | DataV::Utf8String(b) => {
            law_length_prefixed_round_trip(c, b);
        },
        DataV::DateTime(d) => {
            law_wire_round_trip(d, Date::of_wire(s), Time::of_wire(s));
        },
        DataV::Date(d) => {
            law_wire_round_trip(DateTime::of_wire(s), d, Time::of_wire(s));
        },
        DataV::Time(d) => {
            law_wire_round_trip(DateTime::of_wire(s), Date::of_wire(s), d);
        },
        DataV::DoubleLong(x) => {
            lemma_be_bytes_len((x as u32) as nat, 4);
            lemma_be_at(c, (x as u32) as nat, 4);
            lemma_signed(0, 0, x, 0);
        },
        DataV::DoubleLongUnsigned(x) => {
            lemma_be_bytes_len((x) as nat, 4);
            lemma_be_at(c, (x) as nat, 4);
        },
        DataV::Bcd(x) => {
            lemma_signed(x, 0, 0, 0);
        },
        DataV::Integer(x) => {
            lemma_signed(x, 0, 0, 0);
        },
        DataV::Long(x) => {
            lemma_be_bytes_len((x as u16) as nat, 2);
            lemma_be_at(c, (x as u16) as nat, 2);
            lemma_signed(0, x, 0, 0);
        },
        DataV::LongUnsigned(x) => {
            lemma_be_bytes_len((x) as nat, 2);
            lemma_be_at(c, (x) as nat, 2);
        },
        DataV::Long64(x) => {
            lemma_be_bytes_len((x as u64) as nat, 8);
            lemma_be_at(c, (x as u64) as nat, 8);
            lemma_signed(0, 0, 0, x);
        },
        DataV::Long64Unsigned(x) => {
            lemma_be_bytes_len((x) as nat, 8);
            lemma_be_at(c, (x) as nat, 8);
        },
        DataV::Float32(x) => {
            lemma_be_bytes_len((x) as nat, 4);
            lemma_be_at(c, (x) as nat, 4);
        },
        DataV::Float64(x) => {
            lemma_be_bytes_len((x) as nat, 8);
            lemma_be_at(c, (x) as nat, 8);
        },
        DataV::DeltaInteger(x) => {
            lemma_signed(x, 0, 0, 0);
        },
        DataV::DeltaLong(x) => {
            lemma_be_bytes_len((x as u16) as nat, 2);
            lemma_be_at(c, (x as u16) as nat, 2);
            lemma_signed(0, x, 0, 0);
        },
        DataV::DeltaDoubleLong(x) => {
            lemma_be_bytes_len((x as u32) as nat, 4);
            lemma_be_at(c, (x as u32) as nat, 4);
            lemma_signed(0, 0, x, 0);
        },
        DataV::DeltaLongUnsigned(x) => {
            lemma_be_bytes_len((x) as nat, 2);
            lemma_be_at(c, (x) as nat, 2);
        },
        DataV::DeltaDoubleLongUnsigned(x) => {
            lemma_be_bytes_len((x) as nat, 4);
            lemma_be_at(c, (x) as nat, 4);
        },
        _ => {},
    }
}

/// A sequence reads back from its body.
proof fn lemma_seq_round_trip(d: Cursor, q: SeqV)
    requires
        d.wf(),
        q.valid(),
        q.depth >= 1,
        length_fits(q.count),
        enc_length(q.count).len() + q.raw.len() <= d.left(),
        d.peek(enc_length(q.count).len() + q.raw.len()) == enc_length(q.count) + q.raw,
    ensures
        ({
            let f = d.adv(enc_length(q.count).len());
            &&& p_length(d) == Ok::<(nat, Cursor), Error>((q.count, f))
            &&& p_skip_n(f, q.count, 1) == Ok::<Cursor, Error>(f.adv(q.raw.len()))
            &&& f.peek(q.raw.len()) == q.raw
        }),
{
    let b = enc_length(q.count) + q.raw;
    let n = enc_length(q.count).len();
    assert(d.peek(n) =~= d.peek(b.len()).subrange(0, n as int));
    assert(b.subrange(0, n as int) =~= enc_length(q.count));
    law_length_round_trip(d, q.count);
    let f = d.adv(n);
    assert(f.peek(q.raw.len()) =~= d.peek(b.len()).subrange(n as int, b.len() as int));
    assert(b.subrange(n as int, b.len() as int) =~= q.raw);
    assert(q.start().peek(q.raw.len()) =~= q.raw);
    lemma_skip_local(q.start(), f, q.count, q.depth as nat, 1);
}

/// A compact array reads back from its body.
#[verifier::rlimit(40)]
proof fn lemma_compact_round_trip(d: Cursor, q: CompactV)
    requires
        d.wf(),
        q.valid(),
        q.depth >= 1,
        length_fits(q.contents.len()),
        (q.desc + enc_prefixed(q.contents)).len() <= d.left(),
        d.peek((q.desc + enc_prefixed(q.contents)).len()) == q.desc + enc_prefixed(q.contents),
    ensures
        p_compact(d, 1) matches Ok((w, e)) && w.same(q) && e == d.adv(
            (q.desc + enc_prefixed(q.contents)).len(),
        ),
{
    let b = q.desc + enc_prefixed(q.contents);
    let k = Cursor { buf: q.desc, pos: 0, base: q.desc_base as nat };
    lemma_desc_adv(k, q.depth as nat);
    let n = q.desc.len();
    assert(k.peek(n) =~= q.desc);
    assert(d.peek(n) =~= d.peek(b.len()).subrange(0, n as int));
    assert(b.subrange(0, n as int) =~= q.desc);
    let (_, e) = q.shape()->Ok_0;
    assert(e.pos == n);
    lemma_desc_local(k, d, q.depth as nat, 1);
    let f = d.adv(n);
    let t = enc_prefixed(q.contents);
    assert(f.peek(t.len()) =~= d.peek(b.len()).subrange(n as int, b.len() as int));
    assert(b.subrange(n as int, b.len() as int) =~= t);
    law_length_prefixed_round_trip(f, q.contents);
}

/// A value reads back from its body.
proof fn lemma_body_round_trip(d: Cursor, v: DataV)
    requires
        d.wf(),
        v.valid(),
        v.encodable(),
        v.body().len() <= d.left(),
        d.peek(v.body().len()) == v.body(),
    ensures
        p_body(d, v.tag(), 0) matches Ok((w, e)) && w.same(v) && e == d.adv(v.body().len()),
{
    if v is Array {
        lemma_seq_round_trip(d, v->Array_0);
    } else if v is Structure {
        lemma_seq_round_trip(d, v->Structure_0);
    } else if v is CompactArray {
        lemma_compact_round_trip(d, v->CompactArray_0);
    } else {
        lemma_leaf_round_trip(d, v);
        assert(p_body(d, v.tag(), 0) == p_leaf(d, v.tag()));
    }
}

/// What is decoded from an encoding is what was encoded, wherever it stands.
pub proof fn law_data_round_trip(c: Cursor, v: DataV)
    requires
        c.wf(),
        v.valid(),
        v.encodable(),
        v.enc().len() <= c.left(),
        c.peek(v.enc().len()) == v.enc(),
    ensures
        p_data(c, 0) matches Ok((w, d)) && w.same(v) && d == c.adv(v.enc().len()),
{
    let s = v.enc();
    law_tag_round_trip(v.tag(), 0);
    assert(c.buf[c.pos as int] == c.peek(s.len())[0]);
    let d = c.adv(1);
    let b = v.body();
    assert(d.peek(b.len()) =~= c.peek(s.len()).subrange(1, s.len() as int));
    assert(s.subrange(1, s.len() as int) =~= b);
    lemma_body_round_trip(d, v);
    assert(d.adv(b.len()) =~= c.adv(s.len()));
}

/// Every owned value that can be encoded, and nests no deeper than a decoder follows,
/// parses back from its encoding.
pub proof fn law_tree_round_trip(t: TreeV)
    requires
        t.encodable(),
        t.shallow(MAX_DEPTH as nat),
    ensures
        parsed_tree(t.enc()) == Ok::<TreeV, Error>(t),
{
    let c = Cursor::start(t.enc());
    assert(c.peek(t.enc().len()) =~= t.enc());
    lemma_tree_round_trip(c, t, 0);
}

/// The value a plain tree stands for.
spec fn leaf_value(t: TreeV) -> DataV {
    match t {
        TreeV::Null => DataV::Null,
        TreeV::Boolean(v) => DataV::Boolean(v),
        TreeV::BitString { bits, bytes } => DataV::BitString(BitV { bits, bytes }),
        TreeV::DoubleLong(v) => DataV::DoubleLong(v),
        TreeV::DoubleLongUnsigned(v) => DataV::DoubleLongUnsigned(v),
        TreeV::OctetString(v) => DataV::OctetString(v),
        TreeV::VisibleString(v) => DataV::VisibleString(v),
        TreeV::Utf8String(v) => DataV::Utf8String(v),
        TreeV::Bcd(v) => DataV::Bcd(v),
        TreeV::Integer(v) => DataV::Integer(v),
        TreeV::Long(v) => DataV::Long(v),
        TreeV::Unsigned(v) => DataV::Unsigned(v),
        TreeV::LongUnsigned(v) => DataV::LongUnsigned(v),
        TreeV::Long64(v) => DataV::Long64(v),
        TreeV::Long64Unsigned(v) => DataV::Long64Unsigned(v),
        TreeV::Enum(v) => DataV::Enum(v),
        TreeV::Float32(v) => DataV::Float32(v),
        TreeV::Float64(v) => DataV::Float64(v),
        TreeV::DateTime(v) => DataV::DateTime(v),
        TreeV::Date(v) => DataV::Date(v),
        TreeV::Time(v) => DataV::Time(v),
        TreeV::DeltaInteger(v) => DataV::DeltaInteger(v),
        TreeV::DeltaLong(v) => DataV::DeltaLong(v),
        TreeV::DeltaDoubleLong(v) => DataV::DeltaDoubleLong(v),
        TreeV::DeltaUnsigned(v) => DataV::DeltaUnsigned(v),
        TreeV::DeltaLongUnsigned(v) => DataV::DeltaLongUnsigned(v),
        TreeV::DeltaDoubleLongUnsigned(v) => DataV::DeltaDoubleLongUnsigned(v),
        _ => DataV::DontCare,
    }
}

#[verifier::rlimit(60)]
proof fn lemma_tree_round_trip(c: Cursor, t: TreeV, depth: nat)
    requires
        c.wf(),
        depth < MAX_DEPTH,
        t.encodable(),
        t.shallow((MAX_DEPTH - depth) as nat),
        t.enc().len() <= c.left(),
        c.peek(t.enc().len()) == t.enc(),
    ensures
        p_data(c, depth) matches Ok((v, d)) && tree_of(v) == Ok::<TreeV, Error>(t) && d == c.adv(
            t.enc().len(),
        ),
    decreases t, 1nat,
{
    let s = t.enc();
    let b = t.body();
    assert(c.buf[c.pos as int] == c.peek(s.len())[0]);
    let d = c.adv(1);
    assert(d.peek(b.len()) =~= c.peek(s.len()).subrange(1, s.len() as int));
    assert(s.subrange(1, s.len() as int) =~= b);
    assert(d.adv(b.len()) =~= c.adv(s.len()));
    if t is Array {
        lemma_nested_round_trip(d, t->Array_0, depth);
        law_tag_round_trip(DataTag::Array, 0);
    } else if t is Structure {
        lemma_nested_round_trip(d, t->Structure_0, depth);
        law_tag_round_trip(DataTag::Structure, 0);
    } else {
        lemma_leaf_tree(t, (MAX_DEPTH - depth) as nat);
        let v = leaf_value(t);
        law_tag_round_trip(v.tag(), 0);
        lemma_leaf_round_trip(d, v);
        assert(p_body(d, v.tag(), depth) == p_leaf(d, v.tag()));
    }
}

/// Two byte strings in a row are each where they should be.
pub proof fn lemma_peek_split(c: Cursor, a: Seq<u8>, b: Seq<u8>)
    requires
        c.wf(),
        (a + b).len() <= c.left(),
        c.peek((a + b).len()) == a + b,
    ensures
        c.peek(a.len()) == a,
        c.adv(a.len()).peek(b.len()) == b,
        c.adv(a.len()).wf(),
        c.adv(a.len()).left() == c.left() - a.len(),
{
    let s = a + b;
    assert(c.peek(a.len()) =~= c.peek(s.len()).subrange(0, a.len() as int));
    assert(s.subrange(0, a.len() as int) =~= a);
    assert(c.adv(a.len()).peek(b.len()) =~= c.peek(s.len()).subrange(
        a.len() as int,
        s.len() as int,
    ));
    assert(s.subrange(a.len() as int, s.len() as int) =~= b);
}

/// An array or a structure reads back, given that its elements do.
proof fn lemma_nested_round_trip(d: Cursor, ts: Seq<TreeV>, depth: nat)
    requires
        d.wf(),
        depth < MAX_DEPTH,
        length_fits(ts.len()),
        fit_trees(ts, ts.len()),
        shallow_trees(ts, ts.len(), (MAX_DEPTH - depth - 1) as nat),
        (enc_length(ts.len()) + enc_trees(ts, ts.len())).len() <= d.left(),
        d.peek((enc_length(ts.len()) + enc_trees(ts, ts.len())).len()) == enc_length(ts.len())
            + enc_trees(ts, ts.len()),
    ensures
        ({
            let g = d.adv((enc_length(ts.len()) + enc_trees(ts, ts.len())).len());
            &&& p_body(d, DataTag::Array, depth) matches Ok((v, e)) && tree_of(v) == Ok::<
                TreeV,
                Error,
            >(TreeV::Array(ts)) && e == g
            &&& p_body(d, DataTag::Structure, depth) matches Ok((v, e)) && tree_of(v) == Ok::<
                TreeV,
                Error,
            >(TreeV::Structure(ts)) && e == g
        }),
    decreases ts, ts.len() + 1,
{
    let e = enc_trees(ts, ts.len());
    let n = enc_length(ts.len()).len();
    let f = d.adv(n);
    lemma_peek_split(d, enc_length(ts.len()), e);
    law_length_round_trip(d, ts.len());
    assert(p_skip_n(f, ts.len(), depth + 1) == Ok::<Cursor, Error>(f.adv(e.len()))) by {
        lemma_trees_round_trip(f, ts, 0, depth + 1);
        assert(f.adv(0) =~= f);
    }
    let k = Cursor { buf: e, pos: 0, base: clip(f.at()) as nat };
    assert(trees_of(k, ts.len(), depth + 1) == Ok::<Seq<TreeV>, Error>(ts)) by {
        assert(k.peek(e.len()) =~= e);
        lemma_trees_round_trip(k, ts, 0, depth + 1);
        assert(k.adv(0) =~= k);
        assert(ts.subrange(0, ts.len() as int) =~= ts);
    }
    lemma_nested_body(d, f, ts, e, depth);
}

/// What a nested body decodes to, from what its elements do.
proof fn lemma_nested_body(d: Cursor, f: Cursor, ts: Seq<TreeV>, e: Seq<u8>, depth: nat)
    requires
        depth < MAX_DEPTH,
        p_length(d) == Ok::<(nat, Cursor), Error>((ts.len(), f)),
        p_skip_n(f, ts.len(), depth + 1) == Ok::<Cursor, Error>(f.adv(e.len())),
        f.peek(e.len()) == e,
        trees_of(Cursor { buf: e, pos: 0, base: clip(f.at()) as nat }, ts.len(), depth + 1)
            == Ok::<Seq<TreeV>, Error>(ts),
    ensures
        p_body(d, DataTag::Array, depth) matches Ok((v, g)) && tree_of(v) == Ok::<TreeV, Error>(
            TreeV::Array(ts),
        ) && g == f.adv(e.len()),
        p_body(d, DataTag::Structure, depth) matches Ok((v, g)) && tree_of(v) == Ok::<TreeV, Error>(
            TreeV::Structure(ts),
        ) && g == f.adv(e.len()),
{
    let q = SeqV { count: ts.len(), raw: e, base: clip(f.at()), depth: (depth + 1) as u8 };
    assert(q.start() == (Cursor { buf: e, pos: 0, base: clip(f.at()) as nat }));
    assert(tree_of(DataV::Array(q)) == Ok::<TreeV, Error>(TreeV::Array(ts)));
    assert(tree_of(DataV::Structure(q)) == Ok::<TreeV, Error>(TreeV::Structure(ts)));
}

/// A plain tree and the value it stands for have the same encoding.
proof fn lemma_leaf_tree(t: TreeV, limit: nat)
    requires
        !(t is Array),
        !(t is Structure),
        t.encodable(),
        t.shallow(limit),
    ensures
        ({
            let v = leaf_value(t);
            &&& v.tag().code() == t.code()
            &&& v.body() == t.body()
            &&& v.encodable()
            &&& v.valid()
            &&& tree_of(v) == Ok::<TreeV, Error>(t)
            &&& !(v is Array) && !(v is Structure) && !(v is CompactArray)
        }),
{
}

/// From element `i` on.
#[verifier::rlimit(40)]
proof fn lemma_trees_round_trip(c: Cursor, ts: Seq<TreeV>, i: nat, depth: nat)
    requires
        c.wf(),
        depth <= MAX_DEPTH,
        i <= ts.len(),
        fit_trees(ts, ts.len()),
        shallow_trees(ts, ts.len(), (MAX_DEPTH - depth) as nat),
        enc_trees(ts, ts.len()).len() <= c.left(),
        c.peek(enc_trees(ts, ts.len()).len()) == enc_trees(ts, ts.len()),
    ensures
        ({
            let at = c.adv(enc_trees(ts, i).len());
            let end = c.adv(enc_trees(ts, ts.len()).len());
            &&& p_skip_n(at, (ts.len() - i) as nat, depth) == Ok::<Cursor, Error>(end)
            &&& trees_of(at, (ts.len() - i) as nat, depth) == Ok::<Seq<TreeV>, Error>(
                ts.subrange(i as int, ts.len() as int),
            )
        }),
    decreases ts, ts.len() - i,
{
    let e = enc_trees(ts, ts.len());
    if i < ts.len() {
        let at = c.adv(enc_trees(ts, i).len());
        lemma_enc_trees_at(ts, i, ts.len());
        let x = ts[i as int];
        assert(at.peek(x.enc().len()) =~= c.peek(e.len()).subrange(
            enc_trees(ts, i).len() as int,
            enc_trees(ts, i + 1).len() as int,
        ));
        lemma_fit_at(ts, i, ts.len(), (MAX_DEPTH - depth) as nat);
        lemma_tree_round_trip(at, x, depth);
        lemma_trees_round_trip(c, ts, i + 1, depth);
        assert(at.adv(x.enc().len()) =~= c.adv(enc_trees(ts, i + 1).len()));
        assert(ts.subrange(i as int, ts.len() as int) =~= seq![x] + ts.subrange(
            i as int + 1,
            ts.len() as int,
        ));
    } else {
        assert(ts.subrange(i as int, ts.len() as int) =~= Seq::<TreeV>::empty());
    }
}

/// Where element `i` stands among the encodings.
proof fn lemma_enc_trees_at(ts: Seq<TreeV>, i: nat, n: nat)
    requires
        i < n <= ts.len(),
    ensures
        enc_trees(ts, i).len() + ts[i as int].enc().len() == enc_trees(ts, i + 1).len(),
        enc_trees(ts, i + 1).len() <= enc_trees(ts, n).len(),
        enc_trees(ts, n).subrange(
            enc_trees(ts, i).len() as int,
            enc_trees(ts, i + 1).len() as int,
        ) == ts[i as int].enc(),
    decreases n,
{
    let (a, b) = (enc_trees(ts, i).len() as int, enc_trees(ts, i + 1).len() as int);
    if i + 1 == n {
        assert(enc_trees(ts, n).subrange(a, b) =~= ts[i as int].enc());
    } else {
        lemma_enc_trees_at(ts, i, (n - 1) as nat);
        assert(enc_trees(ts, n).subrange(a, b) =~= enc_trees(ts, (n - 1) as nat).subrange(a, b));
    }
}

proof fn lemma_fit_at(ts: Seq<TreeV>, i: nat, n: nat, limit: nat)
    requires
        i < n <= ts.len(),
        fit_trees(ts, n),
        shallow_trees(ts, n, limit),
    ensures
        ts[i as int].encodable(),
        ts[i as int].shallow(limit),
    decreases n,
{
    if i + 1 < n {
        lemma_fit_at(ts, i, (n - 1) as nat, limit);
    }
}

/// Whatever decodes is valid: the bytes of an array, a structure or a compact array are
/// the values that it says and nothing else.
pub proof fn law_decoded_is_valid(c: Cursor)
    requires
        c.wf(),
    ensures
        p_data(c, 0) matches Ok((v, d)) ==> v.valid() && d.wf(),
{
    lemma_data_adv(c, 0);
    if let Ok((b, d)) = p_u8(c) {
        if let Some(tag) = tag_of(b) {
            if tag is Array || tag is Structure {
                if let Ok((n, f)) = p_length(d) {
                    if let Ok(g) = p_skip_n(f, n, 1) {
                        lemma_skip_adv(f, n, 1);
                        let m = (g.pos - f.pos) as nat;
                        let k = Cursor { buf: f.peek(m), pos: 0, base: clip(f.at()) as nat };
                        assert(k.peek(m) =~= f.peek(m));
                        lemma_skip_local(f, k, n, 1, 1);
                    }
                }
            } else if tag is CompactArray {
                if let Ok((_, f)) = p_desc(d, 1) {
                    lemma_desc_adv(d, 1);
                    let m = (f.pos - d.pos) as nat;
                    let k = Cursor { buf: d.peek(m), pos: 0, base: clip(d.at()) as nat };
                    assert(k.peek(m) =~= d.peek(m));
                    lemma_desc_local(d, k, 1, 1);
                }
            } else {
                reveal(p_leaf);
                assert(p_body(d, tag, 0) == p_leaf(d, tag));
            }
        }
    }
}

/// Whether the encoding of a value decodes, to the last byte, and to the same.
pub open spec fn value_reads_back(v: DataV) -> bool {
    p_data(Cursor::start(v.enc()), 0) matches Ok((w, d)) && w.same(v) && d.left() == 0
}

/// Whatever decodes can be encoded again, in no more bytes than it was read from, and what
/// is encoded decodes to the same.
pub proof fn law_decoded_encodes_again(c: Cursor)
    requires
        c.wf(),
    ensures
        p_data(c, 0) matches Ok((v, d)) ==> v.encodable() && v.enc().len() <= d.pos - c.pos
            && value_reads_back(v),
{
    law_decoded_is_valid(c);
    if let Ok((v, d)) = p_data(c, 0) {
        lemma_not_longer(c);
        let k = Cursor::start(v.enc());
        assert(k.peek(v.enc().len()) =~= v.enc());
        law_data_round_trip(k, v);
    }
}

/// The encoding of a plain value takes no more bytes than it was read from.
proof fn lemma_leaf_not_longer(c: Cursor, tag: DataTag)
    requires
        c.wf(),
        p_leaf(c, tag) is Ok,
    ensures
        ({
            let (v, d) = p_leaf(c, tag)->Ok_0;
            v.encodable() && v.body().len() <= d.pos - c.pos
        }),
{
    reveal(p_leaf);
    let (v, d) = p_leaf(c, tag)->Ok_0;
    if let Ok((n, _)) = p_length(c) {
        law_length_is_shortest(c, n);
    }
    match v {
        DataV::DoubleLong(x) => lemma_be_bytes_len((x as u32) as nat, 4),
        DataV::DoubleLongUnsigned(x) => lemma_be_bytes_len(x as nat, 4),
        DataV::Long(x) => lemma_be_bytes_len((x as u16) as nat, 2),
        DataV::LongUnsigned(x) => lemma_be_bytes_len(x as nat, 2),
        DataV::Long64(x) => lemma_be_bytes_len((x as u64) as nat, 8),
        DataV::Long64Unsigned(x) => lemma_be_bytes_len(x as nat, 8),
        DataV::Float32(x) => lemma_be_bytes_len(x as nat, 4),
        DataV::Float64(x) => lemma_be_bytes_len(x as nat, 8),
        DataV::DeltaLong(x) => lemma_be_bytes_len((x as u16) as nat, 2),
        DataV::DeltaDoubleLong(x) => lemma_be_bytes_len((x as u32) as nat, 4),
        DataV::DeltaLongUnsigned(x) => lemma_be_bytes_len(x as nat, 2),
        DataV::DeltaDoubleLongUnsigned(x) => lemma_be_bytes_len(x as nat, 4),
        _ => {},
    }
}

/// The encoding of a value takes no more bytes than it was read from.
proof fn lemma_not_longer(c: Cursor)
    requires
        c.wf(),
        p_data(c, 0) is Ok,
    ensures
        ({
            let (v, d) = p_data(c, 0)->Ok_0;
            v.encodable() && v.enc().len() <= d.pos - c.pos
        }),
{
    let d = c.adv(1);
    let tag = tag_of(c.buf[c.pos as int])->0;
    if tag is Array || tag is Structure {
        let (n, f) = p_length(d)->Ok_0;
        law_length_is_shortest(d, n);
        lemma_skip_adv(f, n, 1);
    } else if tag is CompactArray {
        let (_, f) = p_desc(d, 1)->Ok_0;
        lemma_desc_adv(d, 1);
        let (n, _) = p_length(f)->Ok_0;
        law_length_is_shortest(f, n);
    } else {
        assert(p_body(d, tag, 0) == p_leaf(d, tag));
        lemma_leaf_not_longer(d, tag);
    }
}

} // verus!
