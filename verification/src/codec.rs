//! The cursor codec: a reader, a writer, and an error that always knows *where*.
//!
//! Every decoder in this crate is a function over a [`Reader`] and every encoder a
//! function over a [`Writer`]. DLMS encodings are length-prefixed and tag-dispatched, and
//! a hand-written cursor keeps the byte offset of a failure exact.
//!
//! A reader is modelled by [`Cursor`]: the whole input, how much of it has been taken,
//! and the offset the input starts at in the enclosing frame. A decoder's contract names
//! a specification function from one cursor to a value and the next cursor, or to the
//! error with its offset. A writer is modelled by the bytes written so far and by how
//! many it can hold.

use vstd::prelude::*;

use crate::bytes::{be8, be_value};
#[allow(unused_imports)]
use crate::bytes::{
    be_bytes, be_nat, lemma_be_bytes_len, lemma_be_bytes_suffix, lemma_be_nat_bound,
    lemma_be_roundtrip, lemma_pow256, pow256,
};
use crate::text::{push_decimal, push_hex2_lower, push_text};
#[allow(unused_imports)]
use crate::text::{decimal, hex2_lower};

verus! {

/// What went wrong.
///
/// The variants distinguish the cases a caller can act on: a truncated frame may
/// complete on the next read, an unknown tag never will.
#[derive(Debug, Clone, Copy, PartialEq, Eq, Structural)]
#[non_exhaustive]
pub enum ErrorKind {
    /// The input ended inside a value. `needed` is how many more bytes this particular
    /// read wanted, which is a lower bound on what the whole value needs.
    Truncated {
        /// Bytes the failing read still wanted.
        needed: usize,
    },
    /// A tag that is not defined at this position.
    InvalidTag(u8),
    /// A value outside the set the protocol defines for this field.
    InvalidValue,
    /// A well-formed value of the wrong type for the position it appeared in.
    TypeMismatch,
    /// A length prefix that cannot be represented, or that exceeds the remaining input.
    InvalidLength,
    /// Nesting deeper than the configured limit. Guards recursion on hostile input.
    DepthExceeded,
    /// A value that would take more work to expand than any real one needs.
    ///
    /// The sibling of [`ErrorKind::DepthExceeded`]: depth bounds how far a decoder
    /// recurses, this bounds how *wide* it goes. A compact array's type description
    /// multiplies — `array 7425 of array 285 of array 257` is a dozen bytes describing half
    /// a billion values — so the cost of walking one is bounded before it is walked, not
    /// discovered while walking it.
    WorkExceeded,
    /// The output buffer is full.
    BufferTooSmall {
        /// Bytes the failing write still wanted.
        needed: usize,
    },
    /// A frame check sequence, header check sequence or CRC did not match.
    BadChecksum,
    /// An authentication tag did not verify, or a signature did not verify.
    BadTag,
    /// An invocation counter that has already been accepted, or is too old to prove
    /// anything about.
    Replay,
    /// The peer's message is well formed but not allowed in this state.
    UnexpectedMessage,
    /// Something this library does not provide.
    Unsupported,
}

impl ErrorKind {
    /// The text of an error kind.
    pub open spec fn text(self) -> Seq<char> {
        match self {
            ErrorKind::Truncated { needed } => "truncated, needed "@ + decimal(needed as nat)
                + " more byte(s)"@,
            ErrorKind::InvalidTag(t) => "invalid tag 0x"@ + hex2_lower(t),
            ErrorKind::InvalidValue => "invalid value"@,
            ErrorKind::TypeMismatch => "value is not of the type this position requires"@,
            ErrorKind::InvalidLength => "invalid length"@,
            ErrorKind::DepthExceeded => "nesting too deep"@,
            ErrorKind::WorkExceeded => "a value that would take unbounded work to expand"@,
            ErrorKind::BufferTooSmall { needed } => "buffer too small, needed "@ + decimal(
                needed as nat,
            ),
            ErrorKind::BadChecksum => "checksum mismatch"@,
            ErrorKind::BadTag => "authentication tag mismatch"@,
            ErrorKind::Replay => "invocation counter already accepted, or too old"@,
            ErrorKind::UnexpectedMessage => "message not allowed in this state"@,
            ErrorKind::Unsupported => "not supported in this build"@,
        }
    }

    fn push_to(self, s: &mut String)
        ensures
            final(s)@ == old(s)@ + self.text(),
    {
        let ghost before = s@;
        match self {
            ErrorKind::Truncated { needed } => {
                push_text(s, "truncated, needed ");
                push_decimal(s, needed as u64);
                push_text(s, " more byte(s)");
            },
            ErrorKind::InvalidTag(t) => {
                push_text(s, "invalid tag 0x");
                push_hex2_lower(s, t);
            },
            ErrorKind::InvalidValue => push_text(s, "invalid value"),
            ErrorKind::TypeMismatch => push_text(
                s,
                "value is not of the type this position requires",
            ),
            ErrorKind::InvalidLength => push_text(s, "invalid length"),
            ErrorKind::DepthExceeded => push_text(s, "nesting too deep"),
            ErrorKind::WorkExceeded => push_text(
                s,
                "a value that would take unbounded work to expand",
            ),
            ErrorKind::BufferTooSmall { needed } => {
                push_text(s, "buffer too small, needed ");
                push_decimal(s, needed as u64);
            },
            ErrorKind::BadChecksum => push_text(s, "checksum mismatch"),
            ErrorKind::BadTag => push_text(s, "authentication tag mismatch"),
            ErrorKind::Replay => push_text(s, "invocation counter already accepted, or too old"),
            ErrorKind::UnexpectedMessage => push_text(s, "message not allowed in this state"),
            ErrorKind::Unsupported => push_text(s, "not supported in this build"),
        }
        assert(s@ =~= before + self.text());
    }

    /// The error kind as text.
    pub fn to_string(&self) -> (s: String)
        ensures
            s@ == self.text(),
    {
        let mut s = String::new();
        self.push_to(&mut s);
        assert(s@ =~= self.text());
        s
    }
}

/// An error and the byte offset it happened at.
#[derive(Debug, Clone, Copy, PartialEq, Eq, Structural)]
pub struct Error {
    /// What went wrong.
    pub kind: ErrorKind,
    /// Where, as an offset from the start of the buffer.
    pub offset: usize,
}

impl Error {
    /// Construct an error at `offset`.
    #[must_use]
    pub fn new(kind: ErrorKind, offset: usize) -> (e: Self)
        ensures
            e == (Error { kind, offset }),
    {
        Error { kind, offset }
    }

    /// True when more input might complete this value.
    #[must_use]
    pub fn is_truncated(&self) -> (r: bool)
        ensures
            r == (self.kind is Truncated),
    {
        match self.kind {
            ErrorKind::Truncated { .. } => true,
            _ => false,
        }
    }

    /// The text of an error: where, then what.
    pub open spec fn text(self) -> Seq<char> {
        "byte "@ + decimal(self.offset as nat) + ": "@ + self.kind.text()
    }

    /// The error as text.
    pub fn to_string(&self) -> (s: String)
        ensures
            s@ == self.text(),
    {
        let mut s = String::new();
        push_text(&mut s, "byte ");
        push_decimal(&mut s, self.offset as u64);
        push_text(&mut s, ": ");
        self.kind.push_to(&mut s);
        assert(s@ =~= self.text());
        s
    }
}

/// The crate's result type.
pub type Result<T> = core::result::Result<T, Error>;

/// `x`, or the largest offset that can be reported.
pub open spec fn clip(x: int) -> usize {
    if x > usize::MAX {
        usize::MAX
    } else {
        x as usize
    }
}

/// An error at a position in the frame.
pub open spec fn err_at(kind: ErrorKind, at: int) -> Error {
    Error { kind, offset: clip(at) }
}

/// An error `back` bytes before a position in the frame.
pub open spec fn err_before(kind: ErrorKind, at: int, back: int) -> Error {
    Error { kind, offset: if clip(at) >= back { (clip(at) - back) as usize } else { 0 } }
}

/// What a reader is: its input, how many bytes of it have been taken, and the offset in
/// the frame that the input starts at.
#[verifier::ext_equal]
pub struct Cursor {
    /// The whole input.
    pub buf: Seq<u8>,
    /// How many bytes have been taken.
    pub pos: nat,
    /// Where the input starts in the frame.
    pub base: nat,
}

impl Cursor {
    /// The cursor at the start of `buf`.
    pub open spec fn start(buf: Seq<u8>) -> Cursor {
        Cursor { buf, pos: 0, base: 0 }
    }

    /// A cursor never stands past its input.
    pub open spec fn wf(self) -> bool {
        self.pos <= self.buf.len()
    }

    /// The position in the frame.
    pub open spec fn at(self) -> int {
        (self.base + self.pos) as int
    }

    /// How many bytes are left.
    pub open spec fn left(self) -> int {
        self.buf.len() - self.pos
    }

    /// The cursor `n` bytes further on.
    pub open spec fn adv(self, n: nat) -> Cursor {
        Cursor { pos: self.pos + n, ..self }
    }

    /// The next `n` bytes.
    pub open spec fn peek(self, n: nat) -> Seq<u8> {
        self.buf.subrange(self.pos as int, (self.pos + n) as int)
    }

    /// The bytes not yet taken.
    pub open spec fn rest(self) -> Seq<u8> {
        self.buf.subrange(self.pos as int, self.buf.len() as int)
    }

    /// The same input in the same frame, wherever in it.
    pub open spec fn same_input(self, other: Cursor) -> bool {
        self.buf == other.buf && self.base == other.base
    }
}

/// Taking `n` bytes.
pub open spec fn p_take(c: Cursor, n: nat) -> Result<(Seq<u8>, Cursor)> {
    if c.left() < n {
        Err(err_at(ErrorKind::Truncated { needed: (n - c.left()) as usize }, c.at()))
    } else {
        Ok((c.peek(n), c.adv(n)))
    }
}

/// Taking one byte.
pub open spec fn p_u8(c: Cursor) -> Result<(u8, Cursor)> {
    if c.left() < 1 {
        Err(err_at(ErrorKind::Truncated { needed: 1 }, c.at()))
    } else {
        Ok((c.buf[c.pos as int], c.adv(1)))
    }
}

/// Taking a big-endian number of `n` bytes.
pub open spec fn p_be(c: Cursor, n: nat) -> Result<(nat, Cursor)> {
    match p_take(c, n) {
        Ok((s, d)) => Ok((be_nat(s), d)),
        Err(e) => Err(e),
    }
}

/// Taking an A-XDR length: a short form below `0x80`, else `0x80 + n` and `n` big-endian
/// bytes, with `n` from one to four.
pub open spec fn p_length(c: Cursor) -> Result<(nat, Cursor)> {
    match p_u8(c) {
        Err(e) => Err(e),
        Ok((first, d)) => if first < 0x80 {
            Ok((first as nat, d))
        } else if first == 0x80 || first > 0x84 {
            Err(err_before(ErrorKind::InvalidLength, d.at(), 1))
        } else {
            p_be(d, (first - 0x80) as nat)
        },
    }
}

/// Taking a length and that many bytes.
pub open spec fn p_length_prefixed(c: Cursor) -> Result<(Seq<u8>, Cursor)> {
    match p_length(c) {
        Err(e) => Err(e),
        Ok((n, d)) => p_take(d, n),
    }
}

/// What `r` says about a decoder that ran from `before` to `after`: it succeeded exactly
/// where the specification does, with that value and that cursor, and failed exactly
/// where it does, with that error.
pub open spec fn decoded<T>(
    want: Result<(T, Cursor)>,
    before: Cursor,
    after: Cursor,
    r: Result<T>,
) -> bool {
    &&& after.same_input(before)
    &&& match r {
        Ok(v) => want == Ok::<(T, Cursor), Error>((v, after)),
        Err(e) => want == Err::<(T, Cursor), Error>(e),
    }
}

/// A bounds-checked cursor over borrowed input.
///
/// Every method that fails leaves the position untouched, so a caller that hits
/// [`ErrorKind::Truncated`] can retry the same read after more bytes arrive.
#[derive(Debug)]
pub struct Reader<'a> {
    buf: &'a [u8],
    pos: usize,
    base: usize,
}

impl<'a> View for Reader<'a> {
    type V = Cursor;

    closed spec fn view(&self) -> Cursor {
        Cursor { buf: self.buf@, pos: self.pos as nat, base: self.base as nat }
    }
}

impl<'a> Clone for Reader<'a> {
    fn clone(&self) -> (r: Self)
        ensures
            r@ == self@,
    {
        proof {
            use_type_invariant(self);
        }
        Reader { buf: self.buf, pos: self.pos, base: self.base }
    }
}

impl<'a> Reader<'a> {
    /// A reader never stands past its input.
    #[verifier::type_invariant]
    pub open spec fn inv(self) -> bool {
        self@.wf()
    }

    /// A reader over `buf`, with offsets reported from its start.
    #[must_use]
    pub fn new(buf: &'a [u8]) -> (r: Self)
        ensures
            r@ == Cursor::start(buf@),
    {
        Reader { buf, pos: 0, base: 0 }
    }

    /// A reader over `buf` whose reported offsets are shifted by `base`.
    #[must_use]
    pub fn with_base(buf: &'a [u8], base: usize) -> (r: Self)
        ensures
            r@ == (Cursor { buf: buf@, pos: 0, base: base as nat }),
    {
        Reader { buf, pos: 0, base }
    }

    /// Bytes not yet consumed.
    #[must_use]
    pub fn remaining(&self) -> (n: usize)
        ensures
            n == self@.left(),
            self@.wf(),
    {
        proof {
            use_type_invariant(self);
        }
        self.buf.len() - self.pos
    }

    /// True when every byte has been consumed.
    #[must_use]
    pub fn is_empty(&self) -> (r: bool)
        ensures
            r == (self@.left() == 0),
            self@.wf(),
    {
        self.remaining() == 0
    }

    /// The current offset, including the base.
    #[must_use]
    pub fn offset(&self) -> (n: usize)
        ensures
            n == clip(self@.at()),
    {
        self.base.saturating_add(self.pos)
    }

    /// The bytes not yet consumed, without consuming them.
    #[must_use]
    pub fn rest(&self) -> (s: &'a [u8])
        ensures
            s@ == self@.rest(),
            self@.wf(),
    {
        proof {
            use_type_invariant(self);
        }
        vstd::slice::slice_subrange(self.buf, self.pos, self.buf.len())
    }

    /// How many bytes this reader has taken, ignoring the base.
    #[must_use]
    pub fn consumed(&self) -> (n: usize)
        ensures
            n == self@.pos,
            self@.wf(),
    {
        proof {
            use_type_invariant(self);
        }
        self.pos
    }

    /// An error at the current position.
    #[must_use]
    pub fn err(&self, kind: ErrorKind) -> (e: Error)
        ensures
            e == err_at(kind, self@.at()),
    {
        Error::new(kind, self.offset())
    }

    /// An error at `back` bytes before the current position.
    #[must_use]
    pub fn err_back(&self, kind: ErrorKind, back: usize) -> (e: Error)
        ensures
            e == err_before(kind, self@.at(), back as int),
    {
        Error::new(kind, self.offset().saturating_sub(back))
    }

    /// Fail unless at least `n` bytes remain.
    pub fn ensure(&self, n: usize) -> (r: Result<()>)
        ensures
            match r {
                Ok(_) => n <= self@.left(),
                Err(e) => n > self@.left() && e == err_at(
                    ErrorKind::Truncated { needed: (n - self@.left()) as usize },
                    self@.at(),
                ),
            },
            self@.wf(),
    {
        if self.remaining() < n {
            return Err(self.err(ErrorKind::Truncated { needed: n - self.remaining() }));
        }
        Ok(())
    }

    /// Take exactly `n` bytes.
    pub fn take(&mut self, n: usize) -> (r: Result<&'a [u8]>)
        ensures
            final(self)@.same_input(old(self)@),
            match r {
                Ok(s) => p_take(old(self)@, n as nat) == Ok::<(Seq<u8>, Cursor), Error>(
                    (s@, final(self)@),
                ),
                Err(e) => p_take(old(self)@, n as nat) == Err::<(Seq<u8>, Cursor), Error>(e)
                    && final(self)@ == old(self)@,
            },
    {
        proof {
            use_type_invariant(&*self);
        }
        self.ensure(n)?;
        assert(self.buf.len() == self.buf@.len());
        let end: usize = self.pos + n;
        let out = vstd::slice::slice_subrange(self.buf, self.pos, end);
        self.pos = end;
        Ok(out)
    }

    /// Take the remaining bytes.
    pub fn take_rest(&mut self) -> (s: &'a [u8])
        ensures
            s@ == old(self)@.rest(),
            final(self)@ == (Cursor { pos: old(self)@.buf.len(), ..old(self)@ }),
    {
        let out = self.rest();
        self.pos = self.buf.len();
        out
    }

    /// Take exactly `N` bytes as an array.
    pub fn array<const N: usize>(&mut self) -> (r: Result<[u8; N]>)
        ensures
            final(self)@.same_input(old(self)@),
            match r {
                Ok(a) => p_take(old(self)@, N as nat) == Ok::<(Seq<u8>, Cursor), Error>(
                    (a@, final(self)@),
                ),
                Err(e) => p_take(old(self)@, N as nat) == Err::<(Seq<u8>, Cursor), Error>(e)
                    && final(self)@ == old(self)@,
            },
    {
        let s = self.take(N)?;
        Ok(to_array::<N>(s))
    }

    /// One byte.
    pub fn u8(&mut self) -> (r: Result<u8>)
        ensures
            decoded(p_u8(old(self)@), old(self)@, final(self)@, r),
            r is Err ==> final(self)@ == old(self)@,
    {
        let b = self.peek_u8()?;
        proof {
            use_type_invariant(&*self);
        }
        assert(self.buf.len() == self.buf@.len());
        self.pos = self.pos + 1;
        Ok(b)
    }

    /// One byte, without consuming it.
    pub fn peek_u8(&self) -> (r: Result<u8>)
        ensures
            match r {
                Ok(b) => self@.left() >= 1 && b == self@.buf[self@.pos as int],
                Err(e) => self@.left() < 1 && e == err_at(
                    ErrorKind::Truncated { needed: 1 },
                    self@.at(),
                ),
            },
    {
        if self.remaining() == 0 {
            return Err(self.err(ErrorKind::Truncated { needed: 1 }));
        }
        Ok(self.buf[self.pos])
    }

    /// A big-endian `u16`.
    pub fn u16(&mut self) -> (r: Result<u16>)
        ensures
            final(self)@.same_input(old(self)@),
            match r {
                Ok(v) => p_be(old(self)@, 2) == Ok::<(nat, Cursor), Error>((v as nat, final(self)@)),
                Err(e) => p_be(old(self)@, 2) == Err::<(nat, Cursor), Error>(e) && final(self)@
                    == old(self)@,
            },
    {
        let s = self.take(2)?;
        proof {
            lemma_be_nat_bound(s@);
            lemma_pow256();
        }
        Ok(be_value(s) as u16)
    }

    /// A big-endian `u32`.
    pub fn u32(&mut self) -> (r: Result<u32>)
        ensures
            final(self)@.same_input(old(self)@),
            match r {
                Ok(v) => p_be(old(self)@, 4) == Ok::<(nat, Cursor), Error>((v as nat, final(self)@)),
                Err(e) => p_be(old(self)@, 4) == Err::<(nat, Cursor), Error>(e) && final(self)@
                    == old(self)@,
            },
    {
        let s = self.take(4)?;
        proof {
            lemma_be_nat_bound(s@);
            lemma_pow256();
        }
        Ok(be_value(s) as u32)
    }

    /// A big-endian `u64`.
    pub fn u64(&mut self) -> (r: Result<u64>)
        ensures
            final(self)@.same_input(old(self)@),
            match r {
                Ok(v) => p_be(old(self)@, 8) == Ok::<(nat, Cursor), Error>((v as nat, final(self)@)),
                Err(e) => p_be(old(self)@, 8) == Err::<(nat, Cursor), Error>(e) && final(self)@
                    == old(self)@,
            },
    {
        let s = self.take(8)?;
        Ok(be_value(s))
    }

    /// A big-endian `i8`: the byte, read as two's complement.
    pub fn i8(&mut self) -> (r: Result<i8>)
        ensures
            final(self)@.same_input(old(self)@),
            match r {
                Ok(v) => p_u8(old(self)@) matches Ok((b, d)) && v == b as i8 && d == final(self)@,
                Err(e) => p_u8(old(self)@) == Err::<(u8, Cursor), Error>(e) && final(self)@ == old(
                    self,
                )@,
            },
    {
        let b = self.u8()?;
        Ok(b as i8)
    }

    /// A big-endian `i16`: two bytes, read as two's complement.
    pub fn i16(&mut self) -> (r: Result<i16>)
        ensures
            final(self)@.same_input(old(self)@),
            match r {
                Ok(v) => p_be(old(self)@, 2) matches Ok((b, d)) && v == (b as u16) as i16 && d
                    == final(self)@,
                Err(e) => p_be(old(self)@, 2) == Err::<(nat, Cursor), Error>(e) && final(self)@
                    == old(self)@,
            },
    {
        let b = self.u16()?;
        Ok(b as i16)
    }

    /// A big-endian `i32`: four bytes, read as two's complement.
    pub fn i32(&mut self) -> (r: Result<i32>)
        ensures
            final(self)@.same_input(old(self)@),
            match r {
                Ok(v) => p_be(old(self)@, 4) matches Ok((b, d)) && v == (b as u32) as i32 && d
                    == final(self)@,
                Err(e) => p_be(old(self)@, 4) == Err::<(nat, Cursor), Error>(e) && final(self)@
                    == old(self)@,
            },
    {
        let b = self.u32()?;
        Ok(b as i32)
    }

    /// A big-endian `i64`: eight bytes, read as two's complement.
    pub fn i64(&mut self) -> (r: Result<i64>)
        ensures
            final(self)@.same_input(old(self)@),
            match r {
                Ok(v) => p_be(old(self)@, 8) matches Ok((b, d)) && v == (b as u64) as i64 && d
                    == final(self)@,
                Err(e) => p_be(old(self)@, 8) == Err::<(nat, Cursor), Error>(e) && final(self)@
                    == old(self)@,
            },
    {
        let b = self.u64()?;
        Ok(b as i64)
    }

    /// Skip `n` bytes.
    pub fn skip(&mut self, n: usize) -> (r: Result<()>)
        ensures
            final(self)@.same_input(old(self)@),
            match r {
                Ok(_) => n <= old(self)@.left() && final(self)@ == old(self)@.adv(n as nat),
                Err(e) => p_take(old(self)@, n as nat) == Err::<(Seq<u8>, Cursor), Error>(e)
                    && final(self)@ == old(self)@,
            },
    {
        self.take(n)?;
        Ok(())
    }

    /// An A-XDR length: a short form below `0x80`, else `0x80 | n` and `n` big-endian
    /// bytes. `n` above four, and the indefinite form `0x80`, are refused.
    pub fn length(&mut self) -> (r: Result<usize>)
        ensures
            final(self)@.same_input(old(self)@),
            match r {
                Ok(v) => p_length(old(self)@) == Ok::<(nat, Cursor), Error>((v as nat, final(self)@)),
                Err(e) => p_length(old(self)@) == Err::<(nat, Cursor), Error>(e) && final(self)@
                    == old(self)@,
            },
    {
        let start: usize = self.pos;
        let first = self.u8()?;
        if first < 0x80 {
            return Ok(first as usize);
        }
        let n: usize = (first - 0x80) as usize;
        if n == 0 || n > 4 {
            let e = self.err_back(ErrorKind::InvalidLength, 1);
            self.pos = start;
            return Err(e);
        }
        match self.take(n) {
            Ok(s) => {
                proof {
                    lemma_be_nat_bound(s@);
                    lemma_pow256();
                }
                Ok(be_value(s) as usize)
            },
            Err(e) => {
                self.pos = start;
                Err(e)
            },
        }
    }

    /// A length followed by that many bytes.
    pub fn length_prefixed(&mut self) -> (r: Result<&'a [u8]>)
        ensures
            final(self)@.same_input(old(self)@),
            match r {
                Ok(s) => p_length_prefixed(old(self)@) == Ok::<(Seq<u8>, Cursor), Error>(
                    (s@, final(self)@),
                ),
                Err(e) => p_length_prefixed(old(self)@) == Err::<(Seq<u8>, Cursor), Error>(e)
                    && final(self)@ == old(self)@,
            },
    {
        let start: usize = self.pos;
        proof {
            use_type_invariant(&*self);
        }
        let n = self.length()?;
        match self.take(n) {
            Ok(s) => Ok(s),
            Err(e) => {
                self.pos = start;
                Err(e)
            },
        }
    }

    /// Run `f` over the next `n` bytes in a reader of their own, and require it to
    /// consume all of them.
    ///
    /// This is how a nested structure is decoded without letting the inner decoder read
    /// past its own field.
    pub fn nested<T, F: FnOnce(&mut Reader<'a>) -> Result<T>>(&mut self, n: usize, f: F) -> (r:
        Result<T>)
        requires
            forall|i: &mut Reader<'a>| #[trigger] call_requires(f, (i,)),
        ensures
            final(self)@.same_input(old(self)@),
            match p_take(old(self)@, n as nat) {
                Err(e) => r == Err::<T, Error>(e) && final(self)@ == old(self)@,
                Ok((s, d)) => exists|i: &mut Reader<'a>, out: Result<T>| #[trigger]
                    call_ensures(f, (i,), out) && i@ == (Cursor {
                        buf: s,
                        pos: 0,
                        base: clip(old(self)@.at()) as nat,
                    }) && match out {
                        Err(e) => r == Err::<T, Error>(e) && final(self)@ == old(self)@,
                        Ok(v) => if final(i)@.left() == 0 {
                            r == Ok::<T, Error>(v) && final(self)@ == d
                        } else {
                            r == Err::<T, Error>(
                                err_at(ErrorKind::InvalidLength, final(i)@.at()),
                            ) && final(self)@ == old(self)@
                        },
                    },
            },
    {
        let start: usize = self.pos;
        proof {
            use_type_invariant(&*self);
        }
        let base = self.offset();
        let bytes = self.take(n)?;
        let mut inner = Reader::with_base(bytes, base);
        let out = f(&mut inner);
        match out {
            Ok(v) => {
                if !inner.is_empty() {
                    let e = inner.err(ErrorKind::InvalidLength);
                    self.pos = start;
                    return Err(e);
                }
                Ok(v)
            },
            Err(e) => {
                self.pos = start;
                Err(e)
            },
        }
    }
}

/// Copy a slice of `N` bytes into an array.
pub fn to_array<const N: usize>(s: &[u8]) -> (a: [u8; N])
    requires
        s.len() == N,
    ensures
        a@ == s@,
{
    let mut a: [u8; N] = [0u8; N];
    let mut i: usize = 0;
    while i < N
        invariant
            i <= N == s.len(),
            forall|k: int| 0 <= k < i ==> a@[k] == s@[k],
        decreases N - i,
    {
        a[i] = s[i];
        i = i + 1;
    }
    assert(a@ =~= s@);
    a
}

/// How many bytes the shortest length form of `v` carries after its first: none below
/// `0x80`, else as many as the value needs.
pub open spec fn length_bytes(v: nat) -> nat {
    if v < 0x80 {
        0
    } else if v < 0x100 {
        1
    } else if v < 0x1_0000 {
        2
    } else if v < 0x100_0000 {
        3
    } else {
        4
    }
}

/// The A-XDR encoding of a length, in the shortest form.
pub open spec fn enc_length(v: nat) -> Seq<u8> {
    if v < 0x80 {
        seq![v as u8]
    } else {
        seq![(0x80 + length_bytes(v)) as u8] + be_bytes(v, length_bytes(v))
    }
}

/// A length that has an encoding: it fits in four bytes.
pub open spec fn length_fits(v: nat) -> bool {
    v <= 0xFFFF_FFFF
}

/// A byte string behind its length.
pub open spec fn enc_prefixed(s: Seq<u8>) -> Seq<u8> {
    enc_length(s.len()) + s
}

/// What a writer is: the bytes written so far, and how many it can hold if there is a
/// limit.
#[verifier::ext_equal]
pub struct Sink {
    /// What has been written.
    pub bytes: Seq<u8>,
    /// How many bytes fit, if there is a limit.
    pub cap: Option<nat>,
}

impl Sink {
    /// Whether there is room for `n` more bytes.
    pub open spec fn room(self, n: nat) -> bool {
        match self.cap {
            Some(c) => n == 0 || self.bytes.len() + n <= c,
            None => true,
        }
    }

    /// The sink with `bytes` appended.
    pub open spec fn push(self, bytes: Seq<u8>) -> Sink {
        Sink { bytes: self.bytes + bytes, ..self }
    }
}

/// Where an encoder that found no room for all of `bytes` stopped: it has written the first
/// of them, up to the write that failed. That was a write of some of those that come next,
/// and the error says where, and how many of them found no room.
pub open spec fn cut_short(before: Sink, after: Sink, bytes: Seq<u8>, e: Error) -> bool {
    let all = before.bytes + bytes;
    &&& after.bytes.is_prefix_of(all)
    &&& before.cap matches Some(cap) && after.bytes.len() <= cap <= usize::MAX && e.offset
        == after.bytes.len() && (e.kind matches ErrorKind::BufferTooSmall { needed } && 1
        <= needed && cap + needed <= all.len())
}

/// Whether an error is what comes of writing bytes, which are more than a buffer of so many
/// holds, into it from its start: a write of some of them failed, the error says where, and
/// how many of that write found no room.
pub open spec fn overflows(e: Error, bytes: Seq<u8>, cap: nat) -> bool {
    &&& e.offset <= cap
    &&& e.kind matches ErrorKind::BufferTooSmall { needed } && 1 <= needed && cap + needed
        <= bytes.len()
}

/// Whether an error is what comes of encoding something in so many bytes that has no
/// encoding, or none that fits.
pub open spec fn not_built(e: Error, bytes: Seq<u8>, ok: bool, cap: nat) -> bool {
    if ok {
        overflows(e, bytes, cap)
    } else {
        e.kind is BufferTooSmall || e.kind is InvalidLength
    }
}

/// The refusal of so many bytes as a whole by a buffer that holds less.
pub open spec fn too_many(len: nat, cap: nat) -> Error {
    Error { kind: ErrorKind::BufferTooSmall { needed: (len - cap) as usize }, offset: 0 }
}

/// What an encoder did to a writer: it succeeds exactly when what it encodes has an
/// encoding (`ok`) and the writer has room for it, and has then appended exactly `bytes`.
/// When it fails, whatever was there before is still there, and the error says that the
/// buffer was too small — or, where there is no encoding, that a length does not fit, which
/// is what it always says where the writer has no limit.
pub open spec fn appended(
    before: Sink,
    after: Sink,
    bytes: Seq<u8>,
    ok: bool,
    r: Result<()>,
) -> bool {
    &&& after.cap == before.cap
    &&& before.bytes.is_prefix_of(after.bytes)
    &&& (r is Ok) == (ok && before.room(bytes.len()))
    &&& r is Ok ==> after.bytes == before.bytes + bytes
    &&& r matches Err(e) ==> if ok {
        cut_short(before, after, bytes, e)
    } else {
        e.kind is InvalidLength || (e.kind is BufferTooSmall && before.cap is Some)
    }
}

/// What appending `bytes` as a whole did to a writer: all of them, or none, and then the
/// error says how many do not fit and where.
#[verifier::opaque]
pub open spec fn wrote(before: Sink, after: Sink, bytes: Seq<u8>, r: Result<()>) -> bool {
    match r {
        Ok(_) => before.room(bytes.len()) && after == before.push(bytes),
        Err(e) => !before.room(bytes.len()) && after == before && before.bytes.len()
            <= before.cap->0 <= usize::MAX && e == (Error {
            kind: ErrorKind::BufferTooSmall {
                needed: (before.bytes.len() + bytes.len() - before.cap->0) as usize,
            },
            offset: before.bytes.len() as usize,
        }),
    }
}

/// Writing one part behind another is writing the two.
pub proof fn lemma_then(
    before: Sink,
    between: Sink,
    after: Sink,
    a: Seq<u8>,
    b: Seq<u8>,
    ok: bool,
    r: Result<()>,
)
    requires
        between == before.push(a),
        before.room(a.len()),
        appended(between, after, b, ok, r),
    ensures
        appended(before, after, a + b, ok, r),
{
    assert(between.bytes + b =~= before.bytes + (a + b));
}

/// Stopping in one part is stopping before what would have come behind it.
pub proof fn lemma_stopped(
    before: Sink,
    after: Sink,
    a: Seq<u8>,
    whole: Seq<u8>,
    ok: bool,
    all_ok: bool,
    e: Error,
)
    requires
        appended(before, after, a, ok, Err(e)),
        a.is_prefix_of(whole),
        all_ok ==> ok,
    ensures
        appended(before, after, whole, all_ok, Err(e)),
{
    assert((before.bytes + a).is_prefix_of(before.bytes + whole));
}

/// A sink for encoded bytes.
///
/// Implemented for a caller-owned slice ([`SliceWriter`]), for an owned buffer with a
/// capacity ([`BoundedWriter`]), for one of a fixed size ([`crate::fixed::FixedWriter`])
/// and for `Vec<u8>`, so the same encoder serves a microcontroller with a static buffer and
/// a head-end that grows one.
pub trait Writer: Sized {
    /// What has been written, and how much fits.
    spec fn sink(&self) -> Sink;

    /// Append `bytes`: all of them, or none.
    fn write_bytes(&mut self, bytes: &[u8]) -> (r: Result<()>)
        ensures
            appended(old(self).sink(), final(self).sink(), bytes@, true, r),
            wrote(old(self).sink(), final(self).sink(), bytes@, r),
    ;

    /// How many bytes have been written so far.
    fn written(&self) -> (n: usize)
        ensures
            n == clip(self.sink().bytes.len() as int),
    ;

    /// Append one byte.
    fn write_u8(&mut self, b: u8) -> (r: Result<()>)
        ensures
            appended(old(self).sink(), final(self).sink(), seq![b], true, r),
            wrote(old(self).sink(), final(self).sink(), seq![b], r),
    {
        proof {
            reveal(wrote);
        }
        let a: [u8; 1] = [b];
        assert(a@ =~= seq![b]);
        self.write_bytes(&a)
    }

    /// Append a big-endian `u16`.
    fn write_u16(&mut self, v: u16) -> (r: Result<()>)
        ensures
            appended(old(self).sink(), final(self).sink(), be_bytes(v as nat, 2), true, r),
            wrote(old(self).sink(), final(self).sink(), be_bytes(v as nat, 2), r),
    {
        proof {
            reveal(wrote);
        }
        let a = be8(v as u64);
        proof {
            lemma_be_bytes_suffix(v as nat, 8, 2);
        }
        self.write_bytes(vstd::slice::slice_subrange(a.as_slice(), 6, 8))
    }

    /// Append a big-endian `u32`.
    fn write_u32(&mut self, v: u32) -> (r: Result<()>)
        ensures
            appended(old(self).sink(), final(self).sink(), be_bytes(v as nat, 4), true, r),
            wrote(old(self).sink(), final(self).sink(), be_bytes(v as nat, 4), r),
    {
        proof {
            reveal(wrote);
        }
        let a = be8(v as u64);
        proof {
            lemma_be_bytes_suffix(v as nat, 8, 4);
        }
        self.write_bytes(vstd::slice::slice_subrange(a.as_slice(), 4, 8))
    }

    /// Append a big-endian `u64`.
    fn write_u64(&mut self, v: u64) -> (r: Result<()>)
        ensures
            appended(old(self).sink(), final(self).sink(), be_bytes(v as nat, 8), true, r),
            wrote(old(self).sink(), final(self).sink(), be_bytes(v as nat, 8), r),
    {
        proof {
            reveal(wrote);
        }
        let a = be8(v);
        self.write_bytes(a.as_slice())
    }

    /// Append an A-XDR length, in its shortest form.
    ///
    /// # Errors
    /// [`ErrorKind::InvalidLength`] when `len` does not fit in four bytes.
    fn write_length(&mut self, len: usize) -> (r: Result<()>)
        ensures
            appended(old(self).sink(), final(self).sink(), enc_length(len as nat), length_fits(len as nat), r),
    {
        if len < 0x80 {
            return self.write_u8(len as u8);
        }
        let n: usize = if len < 0x100 {
            1
        } else if len < 0x1_0000 {
            2
        } else if len < 0x100_0000 {
            3
        } else if len <= 0xFFFF_FFFF {
            4
        } else {
            return Err(Error::new(ErrorKind::InvalidLength, self.written()));
        };
        proof {
            lemma_be_bytes_len(len as nat, n as nat);
            lemma_be_bytes_suffix(len as nat, 8, n as nat);
        }
        let ghost w0 = *self;
        self.write_u8((0x80 + n) as u8)?;
        let a = be8(len as u64);
        self.write_bytes(vstd::slice::slice_subrange(a.as_slice(), 8 - n, 8))?;
        assert(self.sink().bytes =~= w0.sink().bytes + enc_length(len as nat));
        Ok(())
    }

    /// Append a length followed by `bytes`.
    fn write_length_prefixed(&mut self, bytes: &[u8]) -> (r: Result<()>)
        ensures
            appended(old(self).sink(), final(self).sink(), enc_prefixed(bytes@), length_fits(bytes@.len()), r),
    {
        let ghost w0 = *self;
        self.write_length(bytes.len())?;
        self.write_bytes(bytes)?;
        assert(self.sink().bytes =~= w0.sink().bytes + enc_prefixed(bytes@));
        Ok(())
    }
}

/// A [`Writer`] over a caller-owned slice. Never allocates.
#[derive(Debug)]
pub struct SliceWriter<'a> {
    buf: &'a mut [u8],
    pos: usize,
}

impl<'a> SliceWriter<'a> {
    /// What the slice holds, written or not.
    pub closed spec fn slice(&self) -> Seq<u8> {
        self.buf@
    }

    /// The slice being filled.
    pub closed spec fn target(&self) -> &'a mut [u8] {
        self.buf
    }

    /// What the slice holds past what has been written.
    pub open spec fn unwritten(&self) -> Seq<u8> {
        self.slice().skip(self.sink().bytes.len() as int)
    }

    /// Whether this is what the slice holds: first what has been written, which is no more
    /// than there is room for.
    pub open spec fn is_filled(&self) -> bool {
        &&& self.sink().cap == Some(self.slice().len())
        &&& self.sink().bytes.len() <= self.slice().len()
        &&& self.slice() == self.sink().bytes + self.unwritten()
    }

    /// A writer that fills `buf` from the start.
    #[must_use]
    pub fn new(buf: &'a mut [u8]) -> (w: Self)
        ensures
            w.sink() == (Sink { bytes: Seq::empty(), cap: Some(old(buf)@.len()) }),
            w.slice() == old(buf)@,
            w.is_filled(),
            final(buf)@ == final(w.target())@,
    {
        let w = SliceWriter { buf, pos: 0 };
        assert(w.sink().bytes =~= Seq::<u8>::empty());
        assert(w.slice() =~= w.sink().bytes + w.unwritten());
        w
    }

    /// The bytes written so far, as the slice they were written to.
    #[must_use]
    pub fn finish(self) -> (out: &'a mut [u8])
        ensures
            out@ == self.sink().bytes,
            self.is_filled(),
            final(self.target())@ == final(out)@ + self.unwritten(),
    {
        let n: usize = if self.pos < self.buf.len() { self.pos } else { self.buf.len() };
        assert(self.slice() =~= self.sink().bytes + self.unwritten());
        let (a, b) = self.buf.split_at_mut(n);
        a
    }

    /// The bytes written so far, borrowed.
    #[must_use]
    pub fn as_slice(&self) -> (s: &[u8])
        ensures
            s@ == self.sink().bytes,
            self.is_filled(),
    {
        assert(self.slice() =~= self.sink().bytes + self.unwritten());
        let n: usize = if self.pos < self.buf.len() { self.pos } else { self.buf.len() };
        vstd::slice::slice_subrange(&*self.buf, 0, n)
    }

    /// Discard everything written after `at`.
    ///
    /// Only ever shrinks: `at` beyond what has been written is refused rather than
    /// treated as an extension into whatever the buffer happened to contain.
    ///
    /// # Errors
    /// [`ErrorKind::InvalidLength`] when `at` is past the current position.
    pub fn truncate(&mut self, at: usize) -> (r: Result<()>)
        ensures
            final(self).sink().cap == old(self).sink().cap,
            final(self).slice() == old(self).slice(),
            final(self).is_filled(),
            final(final(self).target())@ == final(old(self).target())@,
            match r {
                Ok(_) => at <= old(self).sink().bytes.len() && final(self).sink().bytes == old(self).sink().bytes.take(at as int),
                Err(e) => at > old(self).sink().bytes.len() && final(self).sink().bytes == old(self).sink().bytes && e == (Error {
                    kind: ErrorKind::InvalidLength,
                    offset: old(self).sink().bytes.len() as usize,
                }),
            },
    {
        assert(self.slice() =~= self.sink().bytes + self.unwritten());
        let pos = self.written();
        if at > pos {
            return Err(Error::new(ErrorKind::InvalidLength, pos));
        }
        self.pos = at;
        assert(self.slice() =~= self.sink().bytes + self.unwritten());
        assert(self.sink().bytes =~= old(self).sink().bytes.take(at as int));
        Ok(())
    }
}

impl<'a> Writer for SliceWriter<'a> {
    closed spec fn sink(&self) -> Sink {
        Sink {
            bytes: if self.pos <= self.buf@.len() {
                self.buf@.take(self.pos as int)
            } else {
                self.buf@
            },
            cap: Some(self.buf@.len()),
        }
    }

    fn write_bytes(&mut self, bytes: &[u8]) -> (r: Result<()>)
        ensures
            final(self).is_filled(),
            final(self).unwritten() == (if r is Ok {
                old(self).unwritten().skip(bytes@.len() as int)
            } else {
                old(self).unwritten()
            }),
            final(final(self).target())@ == final(old(self).target())@,
    {
        proof {
            reveal(wrote);
        }
        assert(self.slice() =~= self.sink().bytes + self.unwritten());
        let cap: usize = self.buf.len();
        let start: usize = if self.pos < cap { self.pos } else { cap };
        if bytes.len() > cap - start {
            return Err(
                Error::new(
                    ErrorKind::BufferTooSmall { needed: bytes.len() - (cap - start) },
                    start,
                ),
            );
        }
        let mut i: usize = 0;
        while i < bytes.len()
            invariant
                i <= bytes.len(),
                cap == self.buf@.len() == old(self).buf@.len(),
                start + bytes.len() <= cap,
                forall|k: int| 0 <= k < start ==> self.buf@[k] == old(self).buf@[k],
                forall|k: int| 0 <= k < i ==> self.buf@[start + k] == bytes@[k],
                forall|k: int| start + i <= k < cap ==> self.buf@[k] == old(self).buf@[k],
                final(self.buf)@ == final(old(self).buf)@,
            decreases bytes.len() - i,
        {
            self.buf[start + i] = bytes[i];
            i = i + 1;
        }
        self.pos = start + bytes.len();
        assert(self.sink().bytes =~= old(self).sink().bytes + bytes@);
        assert(self.slice() =~= self.sink().bytes + self.unwritten());
        assert(self.unwritten() =~= old(self).unwritten().skip(bytes@.len() as int));
        Ok(())
    }

    fn written(&self) -> (n: usize)
        ensures
            n == self.sink().bytes.len(),
            self.is_filled(),
    {
        assert(self.slice() =~= self.sink().bytes + self.unwritten());
        if self.pos < self.buf.len() {
            self.pos
        } else {
            self.buf.len()
        }
    }
}

/// A [`Writer`] over an owned buffer that holds at most a given number of bytes.
///
/// It fills and fails exactly as a [`SliceWriter`] over a slice of that length does,
/// without borrowing one: what an engine keeps between two messages is written here.
#[derive(Debug)]
pub struct BoundedWriter {
    buf: Vec<u8>,
    cap: usize,
}

impl BoundedWriter {
    /// The capacity is never exceeded.
    #[verifier::type_invariant]
    pub closed spec fn inv(self) -> bool {
        self.buf@.len() <= self.cap
    }

    /// An empty writer with room for `cap` bytes.
    #[must_use]
    pub fn new(cap: usize) -> (w: Self)
        ensures
            w.sink() == (Sink { bytes: Seq::empty(), cap: Some(cap as nat) }),
    {
        BoundedWriter { buf: Vec::new(), cap }
    }

    /// The bytes written so far, borrowed.
    #[must_use]
    pub fn as_slice(&self) -> (s: &[u8])
        ensures
            s@ == self.sink().bytes,
    {
        self.buf.as_slice()
    }

    /// The bytes written so far.
    #[must_use]
    pub fn finish(self) -> (v: Vec<u8>)
        ensures
            v@ == self.sink().bytes,
            self.sink().cap matches Some(c) && v@.len() <= c,
    {
        proof {
            use_type_invariant(&self);
        }
        let BoundedWriter { buf, cap: _ } = self;
        buf
    }

    /// Discard everything written after `at`, as [`SliceWriter::truncate`] does.
    ///
    /// # Errors
    /// [`ErrorKind::InvalidLength`] when `at` is past the current position.
    pub fn truncate(&mut self, at: usize) -> (r: Result<()>)
        ensures
            final(self).sink().cap == old(self).sink().cap,
            match r {
                Ok(_) => at <= old(self).sink().bytes.len() && final(self).sink().bytes == old(
                    self,
                ).sink().bytes.take(at as int),
                Err(e) => at > old(self).sink().bytes.len() && final(self).sink() == old(
                    self,
                ).sink() && e == (Error {
                    kind: ErrorKind::InvalidLength,
                    offset: old(self).sink().bytes.len() as usize,
                }),
            },
    {
        if at > self.buf.len() {
            return Err(Error::new(ErrorKind::InvalidLength, self.buf.len()));
        }
        proof {
            use_type_invariant(&*self);
        }
        let mut buf: Vec<u8> = Vec::new();
        core::mem::swap(&mut buf, &mut self.buf);
        buf.truncate(at);
        self.buf = buf;
        assert(self.sink().bytes =~= old(self).sink().bytes.take(at as int));
        Ok(())
    }
}

impl Writer for BoundedWriter {
    closed spec fn sink(&self) -> Sink {
        Sink { bytes: self.buf@, cap: Some(self.cap as nat) }
    }

    fn write_bytes(&mut self, bytes: &[u8]) -> (r: Result<()>)
    {
        proof {
            reveal(wrote);
        }
        proof {
            use_type_invariant(&*self);
        }
        if bytes.len() > self.cap - self.buf.len() {
            return Err(
                Error::new(
                    ErrorKind::BufferTooSmall { needed: bytes.len() - (self.cap - self.buf.len()) },
                    self.buf.len(),
                ),
            );
        }
        let mut buf: Vec<u8> = Vec::new();
        core::mem::swap(&mut buf, &mut self.buf);
        extend(&mut buf, bytes);
        self.buf = buf;
        assert(self.sink() =~= old(self).sink().push(bytes@));
        Ok(())
    }

    fn written(&self) -> (n: usize)
    {
        self.buf.len()
    }
}

/// Append `s` to `v`.
pub fn extend(v: &mut Vec<u8>, s: &[u8])
    ensures
        final(v)@ == old(v)@ + s@,
{
    let ghost before = v@;
    let mut i: usize = 0;
    while i < s.len()
        invariant
            i <= s.len(),
            v@ == before + s@.take(i as int),
        decreases s.len() - i,
    {
        v.push(s[i]);
        i = i + 1;
        assert(v@ =~= before + s@.take(i as int));
    }
    assert(s@.take(i as int) =~= s@);
}

impl Writer for Vec<u8> {
    open spec fn sink(&self) -> Sink {
        Sink { bytes: self@, cap: None }
    }

    fn write_bytes(&mut self, bytes: &[u8]) -> (r: Result<()>)
    {
        proof {
            reveal(wrote);
        }
        extend(self, bytes);
        Ok(())
    }

    fn written(&self) -> (n: usize)
    {
        self.len()
    }
}

/// A [`Writer`] that counts instead of storing. Backs [`Encode::encoded_len`].
#[derive(Clone, Copy)]
pub struct CountingWriter {
    n: usize,
    beyond: bool,
    bytes: Ghost<Seq<u8>>,
}

impl Default for CountingWriter {
    fn default() -> (w: Self)
        ensures
            w.sink() == (Sink { bytes: Seq::empty(), cap: None }),
    {
        CountingWriter { n: 0, beyond: false, bytes: Ghost(Seq::empty()) }
    }
}

impl CountingWriter {
    /// The count is that of the bytes, as far as it can be held.
    #[verifier::type_invariant]
    pub closed spec fn inv(self) -> bool {
        &&& self.n == clip(self.bytes@.len() as int)
        &&& self.beyond == (self.bytes@.len() > usize::MAX)
    }

    /// The count, unless there were more bytes than it can hold.
    #[must_use]
    pub fn exact(&self) -> (n: Option<usize>)
        ensures
            match n {
                Some(n) => n == self.sink().bytes.len(),
                None => self.sink().bytes.len() > usize::MAX,
            },
    {
        proof {
            use_type_invariant(self);
        }
        if self.beyond {
            None
        } else {
            Some(self.n)
        }
    }

    /// The count.
    #[must_use]
    pub fn count(&self) -> (n: usize)
        ensures
            n == clip(self.sink().bytes.len() as int),
    {
        proof {
            use_type_invariant(self);
        }
        self.n
    }
}

impl Writer for CountingWriter {
    closed spec fn sink(&self) -> Sink {
        Sink { bytes: self.bytes@, cap: None }
    }

    fn write_bytes(&mut self, bytes: &[u8]) -> (r: Result<()>)
    {
        proof {
            reveal(wrote);
        }
        proof {
            use_type_invariant(&*self);
        }
        assert(bytes.len() == bytes@.len());
        *self = CountingWriter {
            n: self.n.saturating_add(bytes.len()),
            beyond: self.beyond || self.n.checked_add(bytes.len()).is_none(),
            bytes: Ghost(self.bytes@ + bytes@),
        };
        Ok(())
    }

    fn written(&self) -> (n: usize)
    {
        self.count()
    }
}

/// Something that can be written to a [`Writer`].
pub trait Encode: Sized {
    /// The encoding.
    spec fn enc(&self) -> Seq<u8>;

    /// Whether there is one: every length inside fits in four bytes.
    spec fn encodable(&self) -> bool;

    /// Append the encoding of `self`.
    fn encode<W: Writer>(&self, w: &mut W) -> (r: Result<()>)
        ensures
            appended(old(w).sink(), final(w).sink(), self.enc(), self.encodable(), r),
    ;

    /// The number of bytes [`Encode::encode`] will write.
    fn encoded_len(&self) -> (n: usize)
        ensures
            self.encodable() ==> n == clip(self.enc().len() as int),
    {
        let mut c = CountingWriter::default();
        let _ = self.encode(&mut c);
        assert(self.encodable() ==> c.sink().bytes =~= self.enc());
        c.written()
    }
}

/// Two values, one after the other.
impl<A: Encode, B: Encode> Encode for (A, B) {
    open spec fn enc(&self) -> Seq<u8> {
        self.0.enc() + self.1.enc()
    }

    open spec fn encodable(&self) -> bool {
        self.0.encodable() && self.1.encodable()
    }

    fn encode<W: Writer>(&self, w: &mut W) -> (r: Result<()>) {
        let ghost w0 = w.sink().bytes;
        self.0.encode(w)?;
        self.1.encode(w)?;
        assert(w.sink().bytes =~= w0 + (self.0.enc() + self.1.enc()));
        Ok(())
    }
}

/// What decoding the whole of `bytes` with the specification `want` comes to: its value
/// when nothing is left over, its error when it fails, and a length error otherwise.
pub open spec fn whole<T>(want: Result<(T, Cursor)>) -> Result<T> {
    match want {
        Ok((v, d)) => if d.left() == 0 {
            Ok(v)
        } else {
            Err(err_at(ErrorKind::InvalidLength, d.at()))
        },
        Err(e) => Err(e),
    }
}

/// Something that can be read from a [`Reader`].
pub trait Decode<'a>: Sized + View {
    /// What the bytes at a cursor decode to.
    spec fn parse(c: Cursor) -> Result<(Self::V, Cursor)>;

    /// Consume one value.
    fn decode(r: &mut Reader<'a>) -> (res: Result<Self>)
        ensures
            final(r)@.same_input(old(r)@),
            match res {
                Ok(v) => Self::parse(old(r)@) == Ok::<(Self::V, Cursor), Error>((v@, final(r)@)),
                Err(e) => Self::parse(old(r)@) == Err::<(Self::V, Cursor), Error>(e),
            },
    ;

    /// Consume one value from `bytes`, requiring all of them to be used.
    fn from_bytes(bytes: &'a [u8]) -> (res: Result<Self>)
        ensures
            match res {
                Ok(v) => whole(Self::parse(Cursor::start(bytes@))) == Ok::<Self::V, Error>(v@),
                Err(e) => whole(Self::parse(Cursor::start(bytes@))) == Err::<Self::V, Error>(e),
            },
    {
        let mut r = Reader::new(bytes);
        let v = Self::decode(&mut r)?;
        if !r.is_empty() {
            return Err(r.err(ErrorKind::InvalidLength));
        }
        Ok(v)
    }
}

/// A length reads back from its encoding, wherever in the input it stands.
pub proof fn law_length_round_trip(c: Cursor, v: nat)
    requires
        length_fits(v),
        enc_length(v).len() <= c.left(),
        c.peek(enc_length(v).len()) == enc_length(v),
    ensures
        p_length(c) == Ok::<(nat, Cursor), Error>((v, c.adv(enc_length(v).len()))),
{
    let n = length_bytes(v);
    lemma_be_bytes_len(v, n);
    lemma_pow256();
    assert(c.buf[c.pos as int] == c.peek(enc_length(v).len())[0]);
    if v >= 0x80 {
        assert(c.adv(1).peek(n) =~= c.peek(enc_length(v).len()).subrange(1, 1 + n as int));
        assert(enc_length(v).subrange(1, 1 + n as int) =~= be_bytes(v, n));
        lemma_be_roundtrip(v, n);
    }
}

/// No encoding of a length is shorter than the one written: whatever else the reader
/// takes as `v` is at least as long.
pub proof fn law_length_is_shortest(c: Cursor, v: nat)
    requires
        p_length(c) matches Ok((w, d)) && w == v,
    ensures
        v <= 0xFFFF_FFFF,
        enc_length(v).len() <= (p_length(c)->Ok_0).1.pos - c.pos,
{
    let d = (p_length(c)->Ok_0).1;
    lemma_pow256();
    lemma_be_bytes_len(v, length_bytes(v));
    let first = c.buf[c.pos as int];
    if first >= 0x80 {
        lemma_be_nat_bound(c.adv(1).peek((first - 0x80) as nat));
        reveal_with_fuel(pow256, 5);
    }
}

/// A byte string behind its length reads back, wherever in the input it stands.
pub proof fn law_length_prefixed_round_trip(c: Cursor, s: Seq<u8>)
    requires
        length_fits(s.len()),
        enc_prefixed(s).len() <= c.left(),
        c.peek(enc_prefixed(s).len()) == enc_prefixed(s),
    ensures
        p_length_prefixed(c) == Ok::<(Seq<u8>, Cursor), Error>((s, c.adv(enc_prefixed(s).len()))),
{
    let n = enc_length(s.len()).len();
    assert(c.peek(n) =~= c.peek(enc_prefixed(s).len()).subrange(0, n as int));
    assert(enc_prefixed(s).subrange(0, n as int) =~= enc_length(s.len()));
    law_length_round_trip(c, s.len());
    assert(c.adv(n).peek(s.len()) =~= c.peek(enc_prefixed(s).len()).subrange(
        n as int,
        n as int + s.len(),
    ));
    assert(enc_prefixed(s).subrange(n as int, n as int + s.len()) =~= s);
}

} // verus!
