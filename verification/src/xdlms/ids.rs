//! What names an invocation, and when it was made.

use vstd::prelude::*;

use super::list::read_u32;
use crate::axdr::datetime::DateTime;
use crate::codec::{to_array, ErrorKind, Reader, Result, Writer};
#[allow(unused_imports)]
use super::list::p_u32;
#[allow(unused_imports)]
use crate::bytes::be_bytes;
#[allow(unused_imports)]
use crate::codec::{appended, decoded, enc_prefixed, err_at, p_length_prefixed, p_u8, Cursor};

verus! {

/// The invoke-id-and-priority byte.
#[derive(Debug, Clone, Copy, PartialEq, Eq, Structural)]
pub struct InvokeId(pub u8);

impl InvokeId {
    /// The id of a confirmed invocation.
    #[must_use]
    #[verifier::allow_in_spec]
    pub fn confirmed(id: u8) -> Self
        returns
            InvokeId((id & 0x0F) | 0x40),
    {
        InvokeId((id & 0x0F) | 0x40)
    }

    /// The number of the invocation, without its flags.
    #[must_use]
    #[verifier::allow_in_spec]
    pub fn id(self) -> u8
        returns
            self.0 & 0x0F,
    {
        self.0 & 0x0F
    }

    /// What stands at a cursor.
    pub open spec fn p(c: Cursor) -> Result<(InvokeId, Cursor)> {
        match p_u8(c) {
            Ok((v, d)) => Ok((InvokeId(v), d)),
            Err(e) => Err(e),
        }
    }

    /// The encoding.
    pub open spec fn enc(self) -> Seq<u8> {
        seq![self.0]
    }

    pub(crate) fn read(r: &mut Reader<'_>) -> (res: Result<Self>)
        ensures
            decoded(InvokeId::p(old(r)@), old(r)@, final(r)@, res),
    {
        Ok(InvokeId(r.u8()?))
    }

    pub(crate) fn write<W: Writer>(self, w: &mut W) -> (r: Result<()>)
        ensures
            appended(old(w).sink(), final(w).sink(), self.enc(), true, r),
    {
        w.write_u8(self.0)
    }
}

/// The four-byte long-invoke-id-and-priority.
#[derive(Debug, Clone, Copy, PartialEq, Eq, Structural)]
pub struct LongInvokeId(pub u32);

impl LongInvokeId {
    /// An id with no flag set. It has 24 bits.
    #[must_use]
    #[verifier::allow_in_spec]
    pub fn new(id: u32) -> Self
        returns
            LongInvokeId(id & 0x00FF_FFFF),
    {
        LongInvokeId(id & 0x00FF_FFFF)
    }

    /// The same id, of a confirmed invocation.
    #[must_use]
    #[verifier::allow_in_spec]
    pub fn confirmed(self) -> Self
        returns
            LongInvokeId(self.0 | 0x4000_0000),
    {
        LongInvokeId(self.0 | 0x4000_0000)
    }

    /// What stands at a cursor.
    pub open spec fn p(c: Cursor) -> Result<(LongInvokeId, Cursor)> {
        match p_u32(c) {
            Ok((v, d)) => Ok((LongInvokeId(v), d)),
            Err(e) => Err(e),
        }
    }

    /// The encoding.
    pub open spec fn enc(self) -> Seq<u8> {
        be_bytes(self.0 as nat, 4)
    }

    pub(crate) fn read(r: &mut Reader<'_>) -> (res: Result<Self>)
        ensures
            decoded(LongInvokeId::p(old(r)@), old(r)@, final(r)@, res),
    {
        Ok(LongInvokeId(read_u32(r)?))
    }

    pub(crate) fn write<W: Writer>(self, w: &mut W) -> (r: Result<()>)
        ensures
            appended(old(w).sink(), final(w).sink(), self.enc(), true, r),
    {
        w.write_u32(self.0)
    }
}

/// A date-time octet string, which may be empty.
#[derive(Debug, Clone, Copy, PartialEq, Eq)]
pub struct OptionalDateTime(pub Option<DateTime>);

impl OptionalDateTime {
    /// What stands at a cursor: an octet string of twelve bytes, or of none.
    pub open spec fn p(c: Cursor) -> Result<(OptionalDateTime, Cursor)> {
        match p_length_prefixed(c) {
            Err(e) => Err(e),
            Ok((s, d)) => if s.len() == 0 {
                Ok((OptionalDateTime(None), d))
            } else if s.len() == 12 {
                Ok((OptionalDateTime(Some(DateTime::of_wire(s))), d))
            } else {
                Err(err_at(ErrorKind::InvalidLength, d.at()))
            },
        }
    }

    /// The encoding.
    pub open spec fn enc(self) -> Seq<u8> {
        match self.0 {
            Some(t) => enc_prefixed(t.wire()),
            None => enc_prefixed(Seq::empty()),
        }
    }

    pub(crate) fn read(r: &mut Reader<'_>) -> (res: Result<Self>)
        ensures
            decoded(OptionalDateTime::p(old(r)@), old(r)@, final(r)@, res),
    {
        let s = r.length_prefixed()?;
        if s.len() == 0 {
            Ok(OptionalDateTime(None))
        } else if s.len() == 12 {
            Ok(OptionalDateTime(Some(DateTime::from_bytes(to_array::<12>(s)))))
        } else {
            Err(r.err(ErrorKind::InvalidLength))
        }
    }

    pub(crate) fn write<W: Writer>(self, w: &mut W) -> (r: Result<()>)
        ensures
            appended(old(w).sink(), final(w).sink(), self.enc(), true, r),
    {
        match self.0 {
            Some(t) => {
                let b = t.to_bytes();
                w.write_length_prefixed(b.as_slice())
            },
            None => {
                let b: [u8; 0] = [];
                assert(b@ =~= Seq::<u8>::empty());
                w.write_length_prefixed(b.as_slice())
            },
        }
    }
}

} // verus!
