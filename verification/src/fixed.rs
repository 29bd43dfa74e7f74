//! A [`Writer`] over a buffer of a fixed size that it owns.

use vstd::prelude::*;

use crate::codec::{Error, ErrorKind, Result, Writer};
#[allow(unused_imports)]
use crate::codec::{wrote, Sink};

verus! {

/// The vector of a fixed capacity of `heapless`.
#[verifier::external_type_specification]
#[verifier::external_body]
#[verifier::reject_recursive_types(T)]
pub struct ExFixedVec<T, const N: usize>(heapless::Vec<T, N>);

/// A [`Writer`] that holds up to `N` bytes in itself. Never allocates.
pub struct FixedWriter<const N: usize> {
    inner: heapless::Vec<u8, N>,
    /// What `inner` holds.
    held: Ghost<Seq<u8>>,
}

/// `heapless::Vec::new`: a vector that holds nothing, which is how a writer begins. What a
/// writer is said to hold is only ever said here and in [`fixed_extend`].
#[verifier::external_body]
fn fixed_new<const N: usize>() -> (w: FixedWriter<N>)
    ensures
        w.held@ == Seq::<u8>::empty(),
{
    FixedWriter { inner: heapless::Vec::new(), held: Ghost(Seq::empty()) }
}

/// `heapless::Vec::extend_from_slice`: all of the bytes are appended where they fit in what
/// is left of the capacity, and otherwise none.
#[verifier::external_body]
fn fixed_extend<const N: usize>(w: &mut FixedWriter<N>, bytes: &[u8]) -> (fits: bool)
    ensures
        fits == (old(w).held@.len() + bytes@.len() <= N),
        final(w).held@ == if fits {
            old(w).held@ + bytes@
        } else {
            old(w).held@
        },
{
    w.inner.extend_from_slice(bytes).is_ok()
}

/// `heapless::Vec::as_slice`: what the vector holds, which is never more than its capacity.
#[verifier::external_body]
fn fixed_slice<const N: usize>(w: &FixedWriter<N>) -> (s: &[u8])
    ensures
        s@ == w.held@,
        s@.len() <= N,
{
    w.inner.as_slice()
}

impl<const N: usize> FixedWriter<N> {
    /// The vector that is written to.
    pub closed spec fn vector(self) -> heapless::Vec<u8, N> {
        self.inner
    }

    /// A writer that holds nothing yet.
    #[must_use]
    pub fn new() -> (w: Self)
        ensures
            w.sink() == (Sink { bytes: Seq::empty(), cap: Some(N as nat) }),
    {
        fixed_new()
    }

    /// The bytes written so far.
    #[must_use]
    pub fn as_slice(&self) -> (s: &[u8])
        ensures
            s@ == self.sink().bytes,
            s@.len() <= N,
    {
        fixed_slice(self)
    }

    /// The vector that was written to. What it holds is what [`Self::as_slice`] gave; that is
    /// not stated of the vector once it has left the writer.
    #[must_use]
    pub fn into_inner(self) -> (v: heapless::Vec<u8, N>)
        ensures
            v == self.vector(),
    {
        self.inner
    }
}

impl<const N: usize> Writer for FixedWriter<N> {
    closed spec fn sink(&self) -> Sink {
        Sink { bytes: self.held@, cap: Some(N as nat) }
    }

    fn write_bytes(&mut self, bytes: &[u8]) -> (r: Result<()>) {
        proof {
            reveal(wrote);
        }
        let len: usize = fixed_slice(self).len();
        if fixed_extend(self, bytes) {
            Ok(())
        } else {
            Err(Error::new(ErrorKind::BufferTooSmall { needed: bytes.len() - (N - len) }, len))
        }
    }

    fn written(&self) -> (n: usize) {
        fixed_slice(self).len()
    }
}

} // verus!
