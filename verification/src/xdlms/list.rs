//! The shapes that every service is put together from: fields of a fixed width, values
//! that may be missing, and lists.

use vstd::prelude::*;

use crate::codec::{Decode, Encode, Error, ErrorKind, Reader, Result, Writer};
#[allow(unused_imports)]
use crate::codec::{
    appended, decoded, enc_length, err_before, lemma_stopped, lemma_then, length_fits, p_be,
    p_length, p_u8, whole, Cursor,
};

verus! {

/// The 16-bit number at a cursor.
pub open spec fn p_u16(c: Cursor) -> Result<(u16, Cursor)> {
    match p_be(c, 2) {
        Ok((n, d)) => Ok((n as u16, d)),
        Err(e) => Err(e),
    }
}

/// The 32-bit number at a cursor.
pub open spec fn p_u32(c: Cursor) -> Result<(u32, Cursor)> {
    match p_be(c, 4) {
        Ok((n, d)) => Ok((n as u32, d)),
        Err(e) => Err(e),
    }
}

/// The signed byte at a cursor.
pub open spec fn p_i8(c: Cursor) -> Result<(i8, Cursor)> {
    match p_u8(c) {
        Ok((n, d)) => Ok((n as i8, d)),
        Err(e) => Err(e),
    }
}

/// The boolean at a cursor: any byte but zero is true.
pub open spec fn p_flag(c: Cursor) -> Result<(bool, Cursor)> {
    match p_u8(c) {
        Ok((n, d)) => Ok((n != 0, d)),
        Err(e) => Err(e),
    }
}

/// The encoding of a boolean.
pub open spec fn enc_flag(b: bool) -> Seq<u8> {
    if b {
        seq![1u8]
    } else {
        seq![0u8]
    }
}

pub(crate) fn read_u16(r: &mut Reader<'_>) -> (res: Result<u16>)
    ensures
        decoded(p_u16(old(r)@), old(r)@, final(r)@, res),
{
    r.u16()
}

pub(crate) fn read_u32(r: &mut Reader<'_>) -> (res: Result<u32>)
    ensures
        decoded(p_u32(old(r)@), old(r)@, final(r)@, res),
{
    r.u32()
}

pub(crate) fn read_i8(r: &mut Reader<'_>) -> (res: Result<i8>)
    ensures
        decoded(p_i8(old(r)@), old(r)@, final(r)@, res),
{
    let b = r.u8()?;
    Ok(b as i8)
}

pub(crate) fn read_flag(r: &mut Reader<'_>) -> (res: Result<bool>)
    ensures
        decoded(p_flag(old(r)@), old(r)@, final(r)@, res),
{
    let b = r.u8()?;
    Ok(b != 0)
}

pub(crate) fn write_flag<W: Writer>(w: &mut W, b: bool) -> (r: Result<()>)
    ensures
        appended(old(w).sink(), final(w).sink(), enc_flag(b), true, r),
{
    if b {
        w.write_u8(1)
    } else {
        w.write_u8(0)
    }
}

/// A value that can stand in a list or be left out: it is written and read as what it is,
/// whatever it borrows.
pub trait Wire<'a>: Encode + Decode<'a> {
    /// The encoding of what a value is.
    spec fn enc_of(v: Self::V) -> Seq<u8>;

    /// Whether there is one.
    spec fn fits_of(v: Self::V) -> bool;

    /// A value is encoded as what it is.
    proof fn lemma_enc(&self)
        ensures
            self.enc() == Self::enc_of(self@),
            self.encodable() == Self::fits_of(self@),
    ;
}

/// What the value that may be missing is.
pub open spec fn opt_view<T: View>(o: Option<T>) -> Option<T::V> {
    match o {
        Some(v) => Some(v@),
        None => None,
    }
}

/// The value at a cursor that may be missing: a flag of zero for none, of one before it.
pub open spec fn p_opt<'a, T: Wire<'a>>(c: Cursor) -> Result<(Option<T::V>, Cursor)> {
    match p_u8(c) {
        Err(e) => Err(e),
        Ok((flag, d)) => if flag == 0 {
            Ok((None, d))
        } else if flag == 1 {
            match T::parse(d) {
                Ok((v, f)) => Ok((Some(v), f)),
                Err(e) => Err(e),
            }
        } else {
            Err(err_before(ErrorKind::InvalidValue, d.at(), 1))
        },
    }
}

/// The encoding of a value that may be missing.
pub open spec fn enc_opt<'a, T: Wire<'a>>(o: Option<T::V>) -> Seq<u8> {
    match o {
        Some(v) => seq![1u8] + T::enc_of(v),
        None => seq![0u8],
    }
}

/// Whether there is one.
pub open spec fn fits_opt<'a, T: Wire<'a>>(o: Option<T::V>) -> bool {
    match o {
        Some(v) => T::fits_of(v),
        None => true,
    }
}

pub(crate) fn read_opt<'a, T: Wire<'a>>(r: &mut Reader<'a>) -> (res: Result<Option<T>>)
    ensures
        final(r)@.same_input(old(r)@),
        match res {
            Ok(o) => p_opt::<T>(old(r)@) == Ok::<(Option<T::V>, Cursor), Error>(
                (opt_view(o), final(r)@),
            ),
            Err(e) => p_opt::<T>(old(r)@) == Err::<(Option<T::V>, Cursor), Error>(e),
        },
{
    let flag = r.u8()?;
    if flag == 0 {
        Ok(None)
    } else if flag == 1 {
        Ok(Some(T::decode(r)?))
    } else {
        Err(r.err_back(ErrorKind::InvalidValue, 1))
    }
}

pub(crate) fn write_opt<'a, W: Writer, T: Wire<'a>>(w: &mut W, o: &Option<T>) -> (r: Result<()>)
    ensures
        appended(
            old(w).sink(),
            final(w).sink(),
            enc_opt::<T>(opt_view(*o)),
            fits_opt::<T>(opt_view(*o)),
            r,
        ),
{
    let ghost w0 = w.sink().bytes;
    match o {
        Some(v) => {
            proof {
                v.lemma_enc();
            }
            w.write_u8(1)?;
            v.encode(w)?;
            assert(w.sink().bytes =~= w0 + enc_opt::<T>(opt_view(*o)));
            Ok(())
        },
        None => w.write_u8(0),
    }
}

/// What the values of a list are.
pub open spec fn views<T: View>(s: Seq<T>) -> Seq<T::V> {
    s.map_values(|x: T| x@)
}

/// So many values, one after the other.
pub open spec fn p_run<'a, T: Wire<'a>>(c: Cursor, n: nat) -> Result<(Seq<T::V>, Cursor)>
    decreases n,
{
    if n == 0 {
        Ok((Seq::empty(), c))
    } else {
        match p_run::<T>(c, (n - 1) as nat) {
            Err(e) => Err(e),
            Ok((s, d)) => match T::parse(d) {
                Err(e) => Err(e),
                Ok((v, f)) => Ok((s.push(v), f)),
            },
        }
    }
}

/// The list at a cursor: how many, then each.
pub open spec fn p_list<'a, T: Wire<'a>>(c: Cursor) -> Result<(Seq<T::V>, Cursor)> {
    match p_length(c) {
        Err(e) => Err(e),
        Ok((n, d)) => p_run::<T>(d, n),
    }
}

/// The encodings of the values of a list, one after the other.
pub open spec fn enc_run<'a, T: Wire<'a>>(s: Seq<T::V>) -> Seq<u8>
    decreases s.len(),
{
    if s.len() == 0 {
        Seq::empty()
    } else {
        enc_run::<T>(s.drop_last()) + T::enc_of(s.last())
    }
}

/// The encoding of a list.
pub open spec fn enc_list<'a, T: Wire<'a>>(s: Seq<T::V>) -> Seq<u8> {
    enc_length(s.len()) + enc_run::<T>(s)
}

/// Whether every value of a run has an encoding.
pub open spec fn fits_run<'a, T: Wire<'a>>(s: Seq<T::V>) -> bool {
    forall|i: int| 0 <= i < s.len() ==> T::fits_of(#[trigger] s[i])
}

/// Whether a list has an encoding.
pub open spec fn fits_list<'a, T: Wire<'a>>(s: Seq<T::V>) -> bool {
    length_fits(s.len()) && fits_run::<T>(s)
}

/// Reading fails for good where it fails once.
proof fn lemma_run_fails<'a, T: Wire<'a>>(c: Cursor, m: nat, n: nat)
    requires
        m <= n,
        p_run::<T>(c, m) is Err,
    ensures
        p_run::<T>(c, n) == p_run::<T>(c, m),
    decreases n,
{
    if m < n {
        lemma_run_fails::<T>(c, m, (n - 1) as nat);
    }
}

pub(crate) fn read_list<'a, T: Wire<'a>>(r: &mut Reader<'a>) -> (res: Result<Vec<T>>)
    ensures
        final(r)@.same_input(old(r)@),
        match res {
            Ok(v) => p_list::<T>(old(r)@) == Ok::<(Seq<T::V>, Cursor), Error>(
                (views(v@), final(r)@),
            ),
            Err(e) => p_list::<T>(old(r)@) == Err::<(Seq<T::V>, Cursor), Error>(e),
        },
{
    let n = r.length()?;
    let mut out: Vec<T> = Vec::new();
    let mut i: usize = 0;
    let ghost c = r@;
    assert(views(out@) =~= Seq::<T::V>::empty());
    while i < n
        invariant
            i <= n,
            r@.same_input(c),
            c.same_input(old(r)@),
            p_length(old(r)@) == Ok::<(nat, Cursor), Error>((n as nat, c)),
            p_run::<T>(c, i as nat) == Ok::<(Seq<T::V>, Cursor), Error>((views(out@), r@)),
        decreases n - i,
    {
        let ghost before = out@;
        match T::decode(r) {
            Ok(v) => {
                out.push(v);
                assert(views(out@) =~= views(before).push(v@));
            },
            Err(e) => {
                proof {
                    lemma_run_fails::<T>(c, (i + 1) as nat, n as nat);
                }
                return Err(e);
            },
        }
        i += 1;
    }
    Ok(out)
}

pub(crate) fn write_run<'a, W: Writer, T: Wire<'a>>(w: &mut W, list: &[T]) -> (r: Result<()>)
    ensures
        appended(
            old(w).sink(),
            final(w).sink(),
            enc_run::<T>(views(list@)),
            fits_run::<T>(views(list@)),
            r,
        ),
{
    let ghost w0 = w.sink();
    let mut i: usize = 0;
    let ghost all = views(list@);
    assert(all.take(0) =~= Seq::<T::V>::empty());
    assert(w.sink().bytes =~= w0.bytes + enc_run::<T>(all.take(0)));
    while i < list.len()
        invariant
            i <= list.len(),
            all == views(list@),
            w0 == old(w).sink(),
            w.sink().cap == w0.cap,
            w.sink().bytes == w0.bytes + enc_run::<T>(all.take(i as int)),
            w0.room(enc_run::<T>(all.take(i as int)).len()),
            fits_run::<T>(all.take(i as int)),
        decreases list.len() - i,
    {
        let ghost w1 = w.sink();
        proof {
            list[i as int].lemma_enc();
            assert(all.take(i + 1).drop_last() =~= all.take(i as int));
            assert(all[i as int] == list@[i as int]@);
            lemma_run_grows::<T>(all, (i + 1) as nat);
        }
        let r = list[i].encode(w);
        proof {
            lemma_then(
                w0,
                w1,
                w.sink(),
                enc_run::<T>(all.take(i as int)),
                T::enc_of(all[i as int]),
                T::fits_of(all[i as int]),
                r,
            );
            assert(all.take(i + 1).last() == all[i as int]);
        }
        match r {
            Ok(()) => {},
            Err(e) => {
                proof {
                    lemma_stopped(
                        w0,
                        w.sink(),
                        enc_run::<T>(all.take(i + 1)),
                        enc_run::<T>(all),
                        T::fits_of(all[i as int]),
                        fits_run::<T>(all),
                        e,
                    );
                }
                return Err(e);
            },
        }
        assert(w.sink().bytes =~= w0.bytes + enc_run::<T>(all.take(i + 1)));
        i += 1;
    }
    assert(all.take(all.len() as int) =~= all);
    Ok(())
}

/// The encoding of a run begins with that of its start.
proof fn lemma_run_grows<'a, T: Wire<'a>>(s: Seq<T::V>, n: nat)
    requires
        n <= s.len(),
    ensures
        enc_run::<T>(s.take(n as int)).is_prefix_of(enc_run::<T>(s)),
    decreases s.len() - n,
{
    if n < s.len() {
        lemma_run_grows::<T>(s, n + 1);
        assert(s.take((n + 1) as int).drop_last() =~= s.take(n as int));
    } else {
        assert(s.take(n as int) =~= s);
    }
}

pub(crate) fn write_list<'a, W: Writer, T: Wire<'a>>(w: &mut W, list: &Vec<T>) -> (r: Result<()>)
    ensures
        appended(
            old(w).sink(),
            final(w).sink(),
            enc_list::<T>(views(list@)),
            fits_list::<T>(views(list@)),
            r,
        ),
{
    write_items(w, list.as_slice())
}

/// Append how many values there are, and then each.
pub(crate) fn write_items<'a, W: Writer, T: Wire<'a>>(w: &mut W, list: &[T]) -> (r: Result<()>)
    ensures
        appended(
            old(w).sink(),
            final(w).sink(),
            enc_list::<T>(views(list@)),
            fits_list::<T>(views(list@)),
            r,
        ),
{
    let ghost w0 = w.sink();
    w.write_length(list.len())?;
    let ghost w1 = w.sink();
    let r = write_run(w, list);
    proof {
        lemma_then(
            w0,
            w1,
            w.sink(),
            enc_length(list@.len()),
            enc_run::<T>(views(list@)),
            fits_run::<T>(views(list@)),
            r,
        );
    }
    r
}

/// The list that some bytes hold, and nothing else.
pub(crate) fn whole_list<'a, T: Wire<'a>>(bytes: &'a [u8]) -> (res: Result<Vec<T>>)
    ensures
        match res {
            Ok(v) => whole(p_list::<T>(Cursor::start(bytes@))) == Ok::<Seq<T::V>, Error>(views(v@)),
            Err(e) => whole(p_list::<T>(Cursor::start(bytes@))) == Err::<Seq<T::V>, Error>(e),
        },
{
    let mut r = Reader::new(bytes);
    let list = read_list::<T>(&mut r)?;
    if r.is_empty() {
        Ok(list)
    } else {
        Err(r.err(ErrorKind::InvalidLength))
    }
}

} // verus!
