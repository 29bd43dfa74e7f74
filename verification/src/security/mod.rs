//! Information security: suites, keys, protection and authentication.
//!
//! [`CryptoProvider`] is the seam: the default implementation is built on RustCrypto and
//! keeps keys in memory that is cleared, and an implementation backed by a secure element,
//! a TPM or a head-end HSM can hold them somewhere the application core never sees.

use vstd::prelude::*;

use crate::codec::{Error, ErrorKind, Result};
#[allow(unused_imports)]
use self::keys::KeyRefV;

pub mod counter;
pub mod keys;
pub mod laws;
pub mod protect;
pub mod rustcrypto;
pub mod wrap;

pub use counter::{InvocationCounter, ReplayWindow, REPLAY_WIDTH_MAX, REPLAY_WINDOW_MAX};
pub use keys::{Key, KeyRef, KeyRing, KeyUsage, Secret, SystemTitle};
pub use protect::{constant_time_eq, KeySet, Protector, SecurityPolicy};
pub use rustcrypto::{FixedRandom, RandomSource, RustCryptoProvider};

verus! {

/// Which algorithms an association uses.
///
/// The suite is carried in the low nibble of every security control byte, so both ends
/// can tell immediately which key lengths and which curve are in play.
#[derive(Debug, Clone, Copy, PartialEq, Eq, PartialOrd, Ord, Structural)]
pub enum SecuritySuite {
    /// AES-GCM-128 with AES-128 key wrap. The only suite most meters implement.
    Suite0,
    /// ECDH and ECDSA on P-256 with AES-GCM-128 and SHA-256.
    Suite1,
    /// ECDH and ECDSA on P-384 with AES-GCM-256 and SHA-384.
    Suite2,
}

impl Default for SecuritySuite {
    fn default() -> (r: Self)
        ensures
            r == SecuritySuite::Suite0,
    {
        SecuritySuite::Suite0
    }
}

/// The suite that an id names.
pub open spec fn suite_of(v: u8) -> Result<SecuritySuite> {
    if v == 0 {
        Ok(SecuritySuite::Suite0)
    } else if v == 1 {
        Ok(SecuritySuite::Suite1)
    } else if v == 2 {
        Ok(SecuritySuite::Suite2)
    } else {
        Err(Error { kind: ErrorKind::Unsupported, offset: 0 })
    }
}

impl SecuritySuite {
    /// The suite id as it appears in the security control byte.
    #[must_use]
    #[verifier::allow_in_spec]
    pub fn id(self) -> u8
        returns
            (match self {
                SecuritySuite::Suite0 => 0u8,
                SecuritySuite::Suite1 => 1u8,
                SecuritySuite::Suite2 => 2u8,
            }),
    {
        match self {
            Self::Suite0 => 0,
            Self::Suite1 => 1,
            Self::Suite2 => 2,
        }
    }

    /// From a security control byte's low nibble.
    ///
    /// # Errors
    /// [`ErrorKind::Unsupported`] for an id that names no suite.
    pub fn from_id(v: u8) -> (r: Result<Self>)
        ensures
            r == suite_of(v),
    {
        match v {
            0 => Ok(Self::Suite0),
            1 => Ok(Self::Suite1),
            2 => Ok(Self::Suite2),
            _ => Err(Error::new(ErrorKind::Unsupported, 0)),
        }
    }

    /// The symmetric key length in bytes.
    #[must_use]
    #[verifier::allow_in_spec]
    pub fn key_len(self) -> usize
        returns
            (match self {
                SecuritySuite::Suite2 => 32usize,
                _ => 16usize,
            }),
    {
        match self {
            Self::Suite0 | Self::Suite1 => 16,
            Self::Suite2 => 32,
        }
    }

    /// The authentication tag length in bytes. DLMS truncates GCM's tag to 96 bits.
    pub const TAG_LEN: usize = 12;

    /// The nonce length in bytes: an eight-byte system title and a four-byte counter.
    pub const NONCE_LEN: usize = 12;
}

/// Every suite is found again by its id, and every id that names a suite is its id.
pub proof fn law_suite_round_trip(s: SecuritySuite, v: u8)
    ensures
        suite_of(s.id()) == Ok::<SecuritySuite, Error>(s),
        suite_of(v) matches Ok(t) ==> t.id() == v,
{
}

/// Segments joined end to end.
pub open spec fn joined(s: Seq<&[u8]>) -> Seq<u8>
    decreases s.len(),
{
    if s.len() == 0 {
        Seq::empty()
    } else {
        joined(s.drop_last()) + s.last()@
    }
}

/// Segments join to what their parts join to.
pub proof fn lemma_joined_concat(a: Seq<&[u8]>, b: Seq<&[u8]>)
    ensures
        joined(a + b) == joined(a) + joined(b),
    decreases b.len(),
{
    if b.len() == 0 {
        assert(a + b =~= a);
        assert(joined(a) + joined(b) =~= joined(a));
    } else {
        lemma_joined_concat(a, b.drop_last());
        assert((a + b).drop_last() =~= a + b.drop_last());
        assert(joined(a) + (joined(b.drop_last()) + b.last()@) =~= joined(a) + joined(
            b.drop_last(),
        ) + b.last()@);
    }
}

/// Where data is cut makes no difference to what the segments join to: a segment may be
/// cut in two anywhere, whatever comes before it and after it.
pub proof fn law_cuts_do_not_matter(
    before: Seq<&[u8]>,
    a: &[u8],
    b: &[u8],
    whole: &[u8],
    after: Seq<&[u8]>,
)
    requires
        whole@ == a@ + b@,
    ensures
        joined(before + seq![a, b] + after) == joined(before + seq![whole] + after),
{
    assert(joined(seq![a, b]) == joined(seq![whole])) by {
        reveal_with_fuel(joined, 3);
        assert(seq![a, b].drop_last() =~= seq![a]);
        assert(seq![a].drop_last() =~= Seq::<&[u8]>::empty());
        assert(seq![whole].drop_last() =~= Seq::<&[u8]>::empty());
        assert(joined(seq![a, b]) =~= a@ + b@);
        assert(joined(seq![whole]) =~= whole@);
    }
    lemma_joined_concat(before, seq![a, b]);
    lemma_joined_concat(before, seq![whole]);
    lemma_joined_concat(before + seq![a, b], after);
    lemma_joined_concat(before + seq![whole], after);
}

/// The cryptographic operations the protocol needs.
///
/// Implementors hold the key material. A [`KeyRef`] names a key without exposing it, so a
/// provider backed by a secure element can resolve it to a slot number. What a provider
/// answers depends on the keys it holds and on what it is asked, and on nothing else; only
/// [`CryptoProvider::random`] is not so bound.
pub trait CryptoProvider: Sized {
    /// What sealing gives: the ciphertext and the truncated tag, or the refusal.
    spec fn sealed(
        &self,
        key: KeyRefV,
        suite: SecuritySuite,
        nonce: Seq<u8>,
        aad: Seq<u8>,
        plain: Seq<u8>,
    ) -> Result<(Seq<u8>, Seq<u8>)>;

    /// What opening gives: the plaintext, or the refusal.
    spec fn opened(
        &self,
        key: KeyRefV,
        suite: SecuritySuite,
        nonce: Seq<u8>,
        aad: Seq<u8>,
        data: Seq<u8>,
        tag: Seq<u8>,
    ) -> Result<Seq<u8>>;

    /// What a GMAC comes to: the truncated tag, or the refusal.
    spec fn mac(
        &self,
        key: KeyRefV,
        suite: SecuritySuite,
        nonce: Seq<u8>,
        aad: Seq<u8>,
    ) -> Result<Seq<u8>>;

    /// The bytes of the authentication key.
    spec fn auth_bytes(&self) -> Option<Seq<u8>>;

    /// The bytes of the dedicated key that this end offers.
    spec fn dedicated_bytes(&self) -> Option<Seq<u8>>;

    /// Authenticated encryption in place, returning the truncated tag.
    ///
    /// `buf` is the plaintext on entry and the ciphertext on return. `aad` is
    /// authenticated but not encrypted. What is sealed opens to what it was; and since the
    /// cipher runs in counter mode, sealing the ciphertext again gives the plaintext back.
    ///
    /// # Errors
    /// When the key is unknown to this provider, or the suite is not supported.
    fn aead_seal(
        &self,
        key: KeyRef<'_>,
        suite: SecuritySuite,
        nonce: &[u8; 12],
        aad: &[u8],
        buf: &mut [u8],
    ) -> (r: Result<[u8; 12]>)
        ensures
            final(buf)@.len() == old(buf)@.len(),
            match r {
                Ok(tag) => {
                    &&& self.sealed(key@, suite, nonce@, aad@, old(buf)@) == Ok::<
                        (Seq<u8>, Seq<u8>),
                        Error,
                    >((final(buf)@, tag@))
                    &&& self.opened(key@, suite, nonce@, aad@, final(buf)@, tag@) == Ok::<
                        Seq<u8>,
                        Error,
                    >(old(buf)@)
                    &&& self.sealed(key@, suite, nonce@, aad@, final(buf)@) matches Ok((back, _))
                        && back == old(buf)@
                },
                Err(e) => self.sealed(key@, suite, nonce@, aad@, old(buf)@) == Err::<
                    (Seq<u8>, Seq<u8>),
                    Error,
                >(e),
            },
    ;

    /// Verify and decrypt in place.
    ///
    /// The tag is checked before the caller sees any plaintext, and the comparison is
    /// constant time.
    ///
    /// # Errors
    /// [`ErrorKind::BadTag`] when the tag does not verify — the buffer's contents are
    /// then unspecified and must not be used.
    fn aead_open(
        &self,
        key: KeyRef<'_>,
        suite: SecuritySuite,
        nonce: &[u8; 12],
        aad: &[u8],
        buf: &mut [u8],
        tag: &[u8; 12],
    ) -> (r: Result<()>)
        ensures
            final(buf)@.len() == old(buf)@.len(),
            match r {
                Ok(_) => self.opened(key@, suite, nonce@, aad@, old(buf)@, tag@) == Ok::<
                    Seq<u8>,
                    Error,
                >(final(buf)@),
                Err(e) => self.opened(key@, suite, nonce@, aad@, old(buf)@, tag@) == Err::<
                    Seq<u8>,
                    Error,
                >(e),
            },
    ;

    /// A GMAC tag over the concatenation of `aad`, with no plaintext — what
    /// authentication-only protection and HLS mechanism 5 both compute.
    ///
    /// The additional data arrives in **segments** rather than as one slice because in
    /// authentication-only protection it is `SC ‖ AK ‖ APDU`: a short prefix followed by
    /// a whole APDU that already sits in a buffer. The tag is over the segments joined end
    /// to end; how they are fed to the MAC is the provider's business.
    ///
    /// # Errors
    /// When the key is unknown to this provider, or the suite is not supported.
    fn gmac(
        &self,
        key: KeyRef<'_>,
        suite: SecuritySuite,
        nonce: &[u8; 12],
        aad: &[&[u8]],
    ) -> (r: Result<[u8; 12]>)
        ensures
            match r {
                Ok(tag) => self.mac(key@, suite, nonce@, joined(aad@)) == Ok::<Seq<u8>, Error>(
                    tag@,
                ),
                Err(e) => self.mac(key@, suite, nonce@, joined(aad@)) == Err::<Seq<u8>, Error>(e),
            },
    ;

    /// Wrap a key under a key-encrypting key.
    ///
    /// # Errors
    /// When the key is unknown, or the output buffer is too small.
    fn key_wrap(&self, _kek: KeyRef<'_>, _key: &[u8], _out: &mut [u8]) -> (r: Result<usize>)
        ensures
            final(_out)@.len() == old(_out)@.len(),
            r matches Ok(n) ==> n <= final(_out)@.len(),
        default_ensures
            r == Err::<usize, Error>(Error { kind: ErrorKind::Unsupported, offset: 0 }),
            final(_out)@ == old(_out)@,
    {
        Err(Error::new(ErrorKind::Unsupported, 0))
    }

    /// Unwrap a key.
    ///
    /// # Errors
    /// [`ErrorKind::BadTag`] when the integrity check fails.
    fn key_unwrap(&self, _kek: KeyRef<'_>, _wrapped: &[u8], _out: &mut [u8]) -> (r: Result<usize>)
        ensures
            final(_out)@.len() == old(_out)@.len(),
            r matches Ok(n) ==> n <= final(_out)@.len(),
        default_ensures
            r == Err::<usize, Error>(Error { kind: ErrorKind::Unsupported, offset: 0 }),
            final(_out)@ == old(_out)@,
    {
        Err(Error::new(ErrorKind::Unsupported, 0))
    }

    /// Fill `out` with random bytes.
    ///
    /// Used for HLS challenges and ephemeral keys. A provider that cannot produce
    /// randomness must fail rather than return anything predictable.
    ///
    /// # Errors
    /// When no entropy source is available.
    fn random(&self, out: &mut [u8]) -> (r: Result<()>)
        ensures
            final(out)@.len() == old(out)@.len(),
    ;

    /// The **bytes** of the authentication key.
    ///
    /// This is the one key the protocol needs as data rather than as a key: DLMS feeds
    /// `SC ‖ AK ‖ …` into GCM's additional authenticated data. Every other key stays behind
    /// [`KeyRef`] and never leaves the provider.
    ///
    /// `None` when the provider holds none, which is right only for an association with
    /// no protection.
    fn authentication_key(&self) -> (r: Option<&[u8]>)
        ensures
            match r {
                Some(k) => self.auth_bytes() == Some(k@),
                None => self.auth_bytes() is None,
            },
    ;

    /// The dedicated key this end offers in its `InitiateRequest`, if the caller
    /// configured one.
    ///
    /// A client that returns `Some` here proposes a dedicated association; a server
    /// never offers one.
    fn dedicated_key(&self) -> (r: Option<&[u8]>)
        ensures
            match r {
                Some(k) => self.dedicated_bytes() == Some(k@),
                None => self.dedicated_bytes() is None,
            },
    ;

    /// Install the dedicated key an association just negotiated.
    ///
    /// The server calls this when a client delivers one inside the ciphered
    /// `InitiateRequest`. A provider that cannot hold one refuses, and nothing changes.
    ///
    /// # Errors
    /// [`ErrorKind::Unsupported`] when this provider cannot hold a dedicated key.
    fn set_dedicated_key(&mut self, _key: Key) -> (r: Result<()>)
        ensures
            final(self).auth_bytes() == old(self).auth_bytes(),
            r is Err ==> *final(self) == *old(self),
            r is Ok ==> final(self).dedicated_bytes() == Some(_key@),
        default_ensures
            r == Err::<(), Error>(Error { kind: ErrorKind::Unsupported, offset: 0 }),
    {
        Err(Error::new(ErrorKind::Unsupported, 0))
    }

    /// Forget the dedicated key, so it cannot outlive the association that negotiated it.
    fn clear_dedicated_key(&mut self)
        ensures
            final(self).auth_bytes() == old(self).auth_bytes(),
        default_ensures
            *final(self) == *old(self),
    {
    }
}

/// Draw so many bytes of randomness from a provider.
///
/// # Errors
/// As [`CryptoProvider::random`].
pub fn draw<P: CryptoProvider>(p: &P, len: usize) -> (q: Result<Vec<u8>>)
    ensures
        exists|m: &mut [u8], r: Result<()>|
            #![trigger call_ensures(P::random, (p, m), r)]
            {
                &&& m@ == Seq::new(len as nat, |i: int| 0u8)
                &&& call_ensures(P::random, (p, m), r)
                &&& match q {
                    Ok(v) => r is Ok && final(m)@ == v@,
                    Err(e) => r == Err::<(), Error>(e),
                }
            },
        q matches Ok(v) ==> v@.len() == len,
{
    let mut v: Vec<u8> = Vec::new();
    v.resize(len, 0);
    assert(v@ =~= Seq::new(len as nat, |i: int| 0u8));
    match p.random(v.as_mut_slice()) {
        Ok(_) => Ok(v),
        Err(e) => Err(e),
    }
}

/// Whether a provider that is asked for so many bytes of randomness answers with these.
pub open spec fn draws<P: CryptoProvider>(p: P, len: nat, drawn: Result<Seq<u8>>) -> bool {
    exists|n: usize, q: Result<Vec<u8>>|
        {
            &&& #[trigger] call_ensures(draw::<P>, (&p, n), q)
            &&& n == len
            &&& match q {
                Ok(v) => drawn == Ok::<Seq<u8>, Error>(v@),
                Err(e) => drawn == Err::<Seq<u8>, Error>(e),
            }
        }
}

/// Have a provider forget its dedicated key: the provider before and after.
pub fn forget_key<P: CryptoProvider>(p: &mut P) -> (q: Ghost<(P, P)>)
    ensures
        q@ == (*old(p), *final(p)),
        final(p).auth_bytes() == old(p).auth_bytes(),
        exists|m: &mut P|
            #![trigger call_ensures(P::clear_dedicated_key, (m,), ())]
            *m == *old(p) && *final(m) == *final(p) && call_ensures(
                P::clear_dedicated_key,
                (m,),
                (),
            ),
{
    let ghost before = *p;
    p.clear_dedicated_key();
    Ghost((before, *p))
}

/// Whether a provider that is told to forget its dedicated key is left like this.
pub open spec fn forgets<P: CryptoProvider>(before: P, after: P) -> bool {
    &&& after.auth_bytes() == before.auth_bytes()
    &&& exists|m: &mut P, q: Ghost<(P, P)>| #[trigger]
        call_ensures(forget_key::<P>, (m,), q) && q@ == (before, after)
}

/// Have a provider take a dedicated key: whether it does, and the provider before and after.
pub fn install_key<P: CryptoProvider>(p: &mut P, key: Key) -> (q: (bool, Ghost<(P, P)>))
    ensures
        q.1@ == (*old(p), *final(p)),
        final(p).auth_bytes() == old(p).auth_bytes(),
        !q.0 ==> *final(p) == *old(p),
        q.0 ==> final(p).dedicated_bytes() == Some(key@),
        exists|m: &mut P, r: Result<()>|
            #![trigger call_ensures(P::set_dedicated_key, (m, key), r)]
            *m == *old(p) && *final(m) == *final(p) && q.0 == r is Ok && call_ensures(
                P::set_dedicated_key,
                (m, key),
                r,
            ),
{
    let ghost before = *p;
    let r = p.set_dedicated_key(key);
    (r.is_ok(), Ghost((before, *p)))
}

/// Whether a provider that is handed a dedicated key comes to this: the provider with it, or
/// nothing where it does not take one.
pub open spec fn installs<P: CryptoProvider>(before: P, key: Seq<u8>, after: Option<P>) -> bool {
    exists|m: &mut P, k: Key, q: (bool, Ghost<(P, P)>)|
        {
            &&& #[trigger] call_ensures(install_key::<P>, (m, k), q)
            &&& k@ == key
            &&& q.1@.0 == before
            &&& after == if q.0 {
                Some(q.1@.1)
            } else {
                None
            }
        }
}

} // verus!
