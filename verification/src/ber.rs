//! Just enough BER for ACSE.
//!
//! The association-control APDUs — AARQ, AARE, RLRQ, RLRE — are BER, while everything
//! inside them is A-XDR. Only what those four need is here: single-byte identifiers,
//! definite lengths, object identifiers and the constructed context tags. Indefinite
//! lengths and multi-byte tags are refused.

use vstd::prelude::*;

use crate::codec::{CountingWriter, Encode, Error, ErrorKind, Reader, Result, Writer};
#[allow(unused_imports)]
use crate::codec::{
    appended, clip, enc_length, err_before, law_length_round_trip, length_fits, p_length, p_take,
    p_u8, Cursor,
};

verus! {

/// What a tag, a length and the bytes in between are.
#[verifier::ext_equal]
pub struct TlvV {
    /// The identifier octet.
    pub tag: u8,
    /// The contents.
    pub value: Seq<u8>,
    /// Where the contents start in the frame.
    pub offset: usize,
}

impl TlvV {
    /// The cursor at the start of the contents.
    pub open spec fn start(self) -> Cursor {
        Cursor { buf: self.value, pos: 0, base: self.offset as nat }
    }

    /// The context-specific tag number, for an identifier in the context class.
    pub open spec fn number(self) -> Option<u8> {
        if self.tag & 0xC0 == 0x80 {
            Some(self.tag & 0x1F)
        } else {
            None
        }
    }

    /// The contents, when they are one byte.
    pub open spec fn byte(self) -> Result<u8> {
        if self.value.len() == 1 {
            Ok(self.value[0])
        } else {
            Err(Error { kind: ErrorKind::InvalidLength, offset: self.offset })
        }
    }
}

/// The TLV at a cursor.
pub open spec fn p_tlv(c: Cursor) -> Result<(TlvV, Cursor)> {
    match p_u8(c) {
        Err(e) => Err(e),
        Ok((tag, d)) => if tag & 0x1F == 0x1F {
            Err(err_before(ErrorKind::InvalidTag(tag), d.at(), 1))
        } else {
            match p_length(d) {
                Err(e) => Err(e),
                Ok((n, f)) => match p_take(f, n) {
                    Err(e) => Err(e),
                    Ok((value, g)) => Ok((TlvV { tag, value, offset: clip(f.at()) }, g)),
                },
            }
        },
    }
}

/// The encoding of a TLV.
pub open spec fn enc_tlv(tag: u8, value: Seq<u8>) -> Seq<u8> {
    seq![tag] + enc_length(value.len()) + value
}

/// A tag, a length and the bytes in between.
#[derive(Debug, Clone, Copy, PartialEq, Eq)]
pub struct Tlv<'a> {
    /// The identifier octet.
    pub tag: u8,
    /// The contents.
    pub value: &'a [u8],
    /// Where the contents start, for error offsets.
    pub offset: usize,
}

impl<'a> View for Tlv<'a> {
    type V = TlvV;

    open spec fn view(&self) -> TlvV {
        TlvV { tag: self.tag, value: self.value@, offset: self.offset }
    }
}

impl<'a> Tlv<'a> {
    /// True when the identifier says the contents are themselves TLVs.
    #[must_use]
    pub fn is_constructed(&self) -> (r: bool)
        ensures
            r == (self.tag & 0x20 != 0),
    {
        self.tag & 0x20 != 0
    }

    /// The context-specific tag number, for an identifier in the context class.
    #[must_use]
    pub fn context_number(&self) -> (r: Option<u8>)
        ensures
            r == self@.number(),
    {
        if self.tag & 0xC0 == 0x80 {
            Some(self.tag & 0x1F)
        } else {
            None
        }
    }

    /// A reader over the contents, reporting offsets in the enclosing buffer.
    #[must_use]
    pub fn reader(&self) -> (r: Reader<'a>)
        ensures
            r@ == self@.start(),
    {
        Reader::with_base(self.value, self.offset)
    }

    /// The contents as a single unsigned byte.
    pub fn as_u8(&self) -> (r: Result<u8>)
        ensures
            r == self@.byte(),
    {
        if self.value.len() == 1 {
            Ok(self.value[0])
        } else {
            Err(Error::new(ErrorKind::InvalidLength, self.offset))
        }
    }
}

/// Read one TLV.
pub fn read_tlv<'a>(r: &mut Reader<'a>) -> (res: Result<Tlv<'a>>)
    ensures
        final(r)@.same_input(old(r)@),
        match res {
            Ok(t) => p_tlv(old(r)@) == Ok::<(TlvV, Cursor), Error>((t@, final(r)@)),
            Err(e) => p_tlv(old(r)@) == Err::<(TlvV, Cursor), Error>(e),
        },
{
    let tag = r.u8()?;
    if tag & 0x1F == 0x1F {
        return Err(r.err_back(ErrorKind::InvalidTag(tag), 1));
    }
    let len = r.length()?;
    let offset = r.offset();
    let value = r.take(len)?;
    Ok(Tlv { tag, value, offset })
}

/// A walk over the TLVs of a buffer.
#[derive(Debug)]
pub struct TlvIter<'a> {
    reader: Reader<'a>,
}

impl<'a> TlvIter<'a> {
    /// Where the walk stands.
    pub closed spec fn cursor(&self) -> Cursor {
        self.reader@
    }

    /// The next TLV, and the walk moved past it. `None` when the buffer is exhausted.
    pub fn next(&mut self) -> (r: Option<Result<Tlv<'a>>>)
        ensures
            final(self).cursor().same_input(old(self).cursor()),
            old(self).cursor().wf(),
            final(self).cursor().wf(),
            match r {
                None => old(self).cursor().left() == 0 && final(self).cursor() == old(
                    self,
                ).cursor(),
                Some(t) => old(self).cursor().left() > 0 && match t {
                    Ok(t) => p_tlv(old(self).cursor()) == Ok::<(TlvV, Cursor), Error>(
                        (t@, final(self).cursor()),
                    ),
                    Err(e) => p_tlv(old(self).cursor()) == Err::<(TlvV, Cursor), Error>(e),
                },
            },
    {
        proof {
            use_type_invariant(&self.reader);
        }
        if self.reader.is_empty() {
            return None;
        }
        let t = read_tlv(&mut self.reader);
        proof {
            use_type_invariant(&self.reader);
        }
        Some(t)
    }
}

/// Walk the TLVs in a buffer until it is exhausted.
#[must_use]
pub fn iter_tlv<'a>(bytes: &'a [u8], base: usize) -> (it: TlvIter<'a>)
    ensures
        it.cursor() == (Cursor { buf: bytes@, pos: 0, base: base as nat }),
{
    TlvIter { reader: Reader::with_base(bytes, base) }
}

/// Write a tag, a length and the contents.
pub fn write_tlv<W: Writer>(w: &mut W, tag: u8, value: &[u8]) -> (r: Result<()>)
    ensures
        appended(
            old(w).sink(),
            final(w).sink(),
            enc_tlv(tag, value@),
            length_fits(value@.len()),
            r,
        ),
{
    let ghost w0 = w.sink();
    w.write_u8(tag)?;
    write_len(w, value.len())?;
    w.write_bytes(value)?;
    assert(w.sink().bytes =~= w0.bytes + enc_tlv(tag, value@));
    Ok(())
}

/// Write a BER definite length in the shortest form.
pub fn write_len<W: Writer>(w: &mut W, len: usize) -> (r: Result<()>)
    ensures
        appended(
            old(w).sink(),
            final(w).sink(),
            enc_length(len as nat),
            length_fits(len as nat),
            r,
        ),
{
    w.write_length(len)
}

/// Write a constructed TLV whose contents are `body`.
///
/// The body is measured before it is written, so the length goes out in its shortest
/// form with nothing to move afterwards.
pub fn write_constructed<W: Writer, B: Encode>(w: &mut W, tag: u8, body: &B) -> (r: Result<()>)
    ensures
        appended(
            old(w).sink(),
            final(w).sink(),
            enc_tlv(tag, body.enc()),
            body.encodable() && length_fits(body.enc().len()),
            r,
        ),
{
    let ghost w0 = w.sink();
    let mut counter = CountingWriter::default();
    body.encode(&mut counter)?;
    assert(counter.sink().bytes =~= body.enc());
    let len: usize = match counter.exact() {
        Some(n) => n,
        None => return Err(Error::new(ErrorKind::InvalidLength, w.written())),
    };
    w.write_u8(tag)?;
    write_len(w, len)?;
    body.encode(w)?;
    assert(w.sink().bytes =~= w0.bytes + enc_tlv(tag, body.enc()));
    Ok(())
}

/// A single TLV, as the contents of another.
pub struct Octets<'a> {
    /// The identifier octet.
    pub tag: u8,
    /// The contents.
    pub value: &'a [u8],
}

impl<'a> Encode for Octets<'a> {
    open spec fn enc(&self) -> Seq<u8> {
        enc_tlv(self.tag, self.value@)
    }

    open spec fn encodable(&self) -> bool {
        length_fits(self.value@.len())
    }

    fn encode<W: Writer>(&self, w: &mut W) -> (r: Result<()>) {
        write_tlv(w, self.tag, self.value)
    }
}

/// A TLV reads back from its encoding, wherever it stands.
pub proof fn law_tlv_round_trip(c: Cursor, tag: u8, value: Seq<u8>)
    requires
        c.wf(),
        tag & 0x1F != 0x1F,
        length_fits(value.len()),
        enc_tlv(tag, value).len() <= c.left(),
        c.peek(enc_tlv(tag, value).len()) == enc_tlv(tag, value),
    ensures
        p_tlv(c) == Ok::<(TlvV, Cursor), Error>(
            (
                TlvV { tag, value, offset: clip(c.at() + 1 + enc_length(value.len()).len()) },
                c.adv(enc_tlv(tag, value).len()),
            ),
        ),
{
    let s = enc_tlv(tag, value);
    let n = enc_length(value.len()).len();
    assert(c.buf[c.pos as int] == c.peek(s.len())[0]);
    let d = c.adv(1);
    assert(d.peek(n) =~= c.peek(s.len()).subrange(1, 1 + n as int));
    assert(s.subrange(1, 1 + n as int) =~= enc_length(value.len()));
    law_length_round_trip(d, value.len());
    let f = d.adv(n);
    assert(f.peek(value.len()) =~= c.peek(s.len()).subrange(1 + n as int, s.len() as int));
    assert(s.subrange(1 + n as int, s.len() as int) =~= value);
}

/// A TLV takes at least two bytes, and no more than there are.
pub proof fn lemma_tlv_adv(c: Cursor)
    requires
        c.wf(),
    ensures
        p_tlv(c) matches Ok((_, d)) ==> d.same_input(c) && c.pos < d.pos && d.wf(),
{
}

} // verus!
