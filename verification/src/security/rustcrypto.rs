//! The default [`CryptoProvider`], built on RustCrypto.

use vstd::prelude::*;

use aes::cipher::BlockEncrypt;
use aes_gcm::aead::AeadInPlace;
use aes_gcm::aes::cipher::consts::U12;
use aes_gcm::KeyInit;
use ghash::universal_hash::UniversalHash;

use super::keys::{Key, KeyRef, KeyRing, KeyUsage};
use super::{CryptoProvider, SecuritySuite};
use crate::bytes::{be8, copy_into};
use crate::codec::{extend, to_array, Error, ErrorKind, Result};
#[allow(unused_imports)]
use super::joined;
#[allow(unused_imports)]
use super::keys::KeyRefV;
#[allow(unused_imports)]
use crate::bytes::be_bytes;
#[allow(unused_imports)]
use crate::codec::clip;

verus! {

/// What AES-128-GCM with a 96-bit nonce and tag makes of a plaintext: the ciphertext, and
/// the tag.
pub uninterp spec fn gcm128_sealed(key: Seq<u8>, nonce: Seq<u8>, aad: Seq<u8>, plain: Seq<u8>) -> (Seq<u8>, Seq<u8>);

/// What AES-128-GCM with a 96-bit nonce and tag opens a ciphertext to, if the tag is right.
pub uninterp spec fn gcm128_opened(key: Seq<u8>, nonce: Seq<u8>, aad: Seq<u8>, data: Seq<u8>, tag: Seq<u8>) -> Option<Seq<u8>>;

/// What AES-256-GCM with a 96-bit nonce and tag makes of a plaintext: the ciphertext, and
/// the tag.
pub uninterp spec fn gcm256_sealed(key: Seq<u8>, nonce: Seq<u8>, aad: Seq<u8>, plain: Seq<u8>) -> (Seq<u8>, Seq<u8>);

/// What AES-256-GCM with a 96-bit nonce and tag opens a ciphertext to, if the tag is right.
pub uninterp spec fn gcm256_opened(key: Seq<u8>, nonce: Seq<u8>, aad: Seq<u8>, data: Seq<u8>, tag: Seq<u8>) -> Option<Seq<u8>>;

/// What AES-128 makes of one block.
pub uninterp spec fn aes128_block(key: Seq<u8>, block: Seq<u8>) -> Seq<u8>;

/// What AES-256 makes of one block.
pub uninterp spec fn aes256_block(key: Seq<u8>, block: Seq<u8>) -> Seq<u8>;

/// The GHASH of data under a hash subkey.
pub uninterp spec fn ghash_of(subkey: Seq<u8>, data: Seq<u8>) -> Seq<u8>;

/// What AES-128 key wrap makes of key data.
pub uninterp spec fn kw128_wrapped(kek: Seq<u8>, data: Seq<u8>) -> Seq<u8>;

/// What AES-128 key unwrap makes of wrapped key data, if its integrity check passes.
pub uninterp spec fn kw128_unwrapped(kek: Seq<u8>, data: Seq<u8>) -> Option<Seq<u8>>;

/// The longest plaintext, and the longest additional data, that one GCM call takes.
pub const GCM_MAX: u64 = 0x10_0000_0000;

/// The longest ciphertext that one GCM call takes.
pub const GCM_CIPHERTEXT_MAX: u64 = 0x10_0000_0010;

/// Seal a buffer with AES-128-GCM, by `encrypt_in_place_detached` of
/// `AesGcm<Aes128, U12, U12>`. It refuses a plaintext or additional data longer than its
/// limit and nothing else, and leaves the buffer alone when it does. The ciphertext is as
/// long as the plaintext, opens to it under the tag, and, the keystream being the same,
/// seals back to it.
#[verifier::external_body]
fn gcm128_encrypt(key: &[u8; 16], nonce: &[u8; 12], aad: &[u8], buf: &mut [u8]) -> (r: Option<[u8; 12]>)
    ensures
        final(buf)@.len() == old(buf)@.len(),
        r is Some == (old(buf)@.len() <= GCM_MAX && aad@.len() <= GCM_MAX),
        r is None ==> final(buf)@ == old(buf)@,
        r matches Some(tag) ==> (final(buf)@, tag@) == gcm128_sealed(
            key@,
            nonce@,
            aad@,
            old(buf)@,
        ),
        r matches Some(tag) ==> gcm128_opened(key@, nonce@, aad@, final(buf)@, tag@) == Some(
            old(buf)@,
        ),
        r is Some ==> gcm128_sealed(key@, nonce@, aad@, final(buf)@).0 == old(buf)@,
{
    let cipher = aes_gcm::AesGcm::<aes::Aes128, U12, U12>::new(&(*key).into());
    cipher.encrypt_in_place_detached(&(*nonce).into(), aad, buf).ok().map(|tag| tag.into())
}

/// Open a buffer with AES-128-GCM, by `decrypt_in_place_detached` of
/// `AesGcm<Aes128, U12, U12>`. It succeeds when the lengths are within its limits and the
/// tag is right, and has then replaced the ciphertext by the plaintext, which is as long.
#[verifier::external_body]
fn gcm128_decrypt(key: &[u8; 16], nonce: &[u8; 12], aad: &[u8], buf: &mut [u8], tag: &[u8; 12]) -> (r: bool)
    ensures
        final(buf)@.len() == old(buf)@.len(),
        r == (old(buf)@.len() <= GCM_CIPHERTEXT_MAX && aad@.len() <= GCM_MAX && gcm128_opened(
            key@,
            nonce@,
            aad@,
            old(buf)@,
            tag@,
        ) is Some),
        r ==> gcm128_opened(key@, nonce@, aad@, old(buf)@, tag@) == Some(final(buf)@),
{
    let cipher = aes_gcm::AesGcm::<aes::Aes128, U12, U12>::new(&(*key).into());
    cipher.decrypt_in_place_detached(&(*nonce).into(), aad, buf, &(*tag).into()).is_ok()
}

/// Seal a buffer with AES-256-GCM, by `encrypt_in_place_detached` of
/// `AesGcm<Aes256, U12, U12>`. It refuses a plaintext or additional data longer than its
/// limit and nothing else, and leaves the buffer alone when it does. The ciphertext is as
/// long as the plaintext, opens to it under the tag, and, the keystream being the same,
/// seals back to it.
#[verifier::external_body]
fn gcm256_encrypt(key: &[u8; 32], nonce: &[u8; 12], aad: &[u8], buf: &mut [u8]) -> (r: Option<[u8; 12]>)
    ensures
        final(buf)@.len() == old(buf)@.len(),
        r is Some == (old(buf)@.len() <= GCM_MAX && aad@.len() <= GCM_MAX),
        r is None ==> final(buf)@ == old(buf)@,
        r matches Some(tag) ==> (final(buf)@, tag@) == gcm256_sealed(
            key@,
            nonce@,
            aad@,
            old(buf)@,
        ),
        r matches Some(tag) ==> gcm256_opened(key@, nonce@, aad@, final(buf)@, tag@) == Some(
            old(buf)@,
        ),
        r is Some ==> gcm256_sealed(key@, nonce@, aad@, final(buf)@).0 == old(buf)@,
{
    let cipher = aes_gcm::AesGcm::<aes::Aes256, U12, U12>::new(&(*key).into());
    cipher.encrypt_in_place_detached(&(*nonce).into(), aad, buf).ok().map(|tag| tag.into())
}

/// Open a buffer with AES-256-GCM, by `decrypt_in_place_detached` of
/// `AesGcm<Aes256, U12, U12>`. It succeeds when the lengths are within its limits and the
/// tag is right, and has then replaced the ciphertext by the plaintext, which is as long.
#[verifier::external_body]
fn gcm256_decrypt(key: &[u8; 32], nonce: &[u8; 12], aad: &[u8], buf: &mut [u8], tag: &[u8; 12]) -> (r: bool)
    ensures
        final(buf)@.len() == old(buf)@.len(),
        r == (old(buf)@.len() <= GCM_CIPHERTEXT_MAX && aad@.len() <= GCM_MAX && gcm256_opened(
            key@,
            nonce@,
            aad@,
            old(buf)@,
            tag@,
        ) is Some),
        r ==> gcm256_opened(key@, nonce@, aad@, old(buf)@, tag@) == Some(final(buf)@),
{
    let cipher = aes_gcm::AesGcm::<aes::Aes256, U12, U12>::new(&(*key).into());
    cipher.decrypt_in_place_detached(&(*nonce).into(), aad, buf, &(*tag).into()).is_ok()
}

/// Encrypt one block in place, by `BlockEncrypt::encrypt_block` of `aes::Aes128`.
#[verifier::external_body]
fn aes128_encrypt(key: &[u8; 16], block: &mut [u8; 16])
    ensures
        final(block)@ == aes128_block(key@, old(block)@),
{
    aes::Aes128::new(&(*key).into()).encrypt_block(block.into())
}

/// Encrypt one block in place, by `BlockEncrypt::encrypt_block` of `aes::Aes256`.
#[verifier::external_body]
fn aes256_encrypt(key: &[u8; 32], block: &mut [u8; 16])
    ensures
        final(block)@ == aes256_block(key@, old(block)@),
{
    aes::Aes256::new(&(*key).into()).encrypt_block(block.into())
}

/// The GHASH of data, by `UniversalHash::update_padded` of `ghash::GHash`, which takes it in
/// blocks of sixteen bytes.
#[verifier::external_body]
fn ghash_digest(subkey: &[u8; 16], data: &[u8]) -> (r: [u8; 16])
    requires
        data@.len() % 16 == 0,
    ensures
        r@ == ghash_of(subkey@, data@),
{
    let mut hash = ghash::GHash::new(&(*subkey).into());
    hash.update_padded(data);
    hash.finalize().into()
}

/// Wrap key data, by `KekAes128::wrap` of `aes_kw`. It refuses data that is not a whole
/// number of eight-byte halves of a block, and nothing else where the output is as long as
/// it must be. What is wrapped unwraps to what it was.
#[verifier::external_body]
fn kw128_wrap(kek: &[u8; 16], data: &[u8], out: &mut [u8]) -> (r: bool)
    requires
        old(out)@.len() == data@.len() + 8,
    ensures
        final(out)@.len() == old(out)@.len(),
        r == (data@.len() % 8 == 0),
        r ==> final(out)@ == kw128_wrapped(kek@, data@),
        r ==> kw128_unwrapped(kek@, final(out)@) == Some(data@),
{
    aes_kw::KekAes128::from(*kek).wrap(data, out).is_ok()
}

/// Unwrap key data, by `KekAes128::unwrap` of `aes_kw`. It succeeds when the data is a whole
/// number of eight-byte halves of a block and its integrity check passes.
#[verifier::external_body]
fn kw128_unwrap(kek: &[u8; 16], data: &[u8], out: &mut [u8]) -> (r: bool)
    requires
        old(out)@.len() + 8 == data@.len(),
    ensures
        final(out)@.len() == old(out)@.len(),
        r == (kw128_unwrapped(kek@, data@) is Some && data@.len() % 8 == 0),
        r ==> kw128_unwrapped(kek@, data@) == Some(final(out)@),
{
    aes_kw::KekAes128::from(*kek).unwrap(data, out).is_ok()
}

/// Where a provider gets randomness.
///
/// A separate trait so a provider can exist without one — a decode-only listener needs
/// no entropy — and so an embedded caller can wire in a hardware generator.
pub trait RandomSource: Sized {
    /// Fill `out` with random bytes.
    ///
    /// # Errors
    /// When no entropy is available. Returning predictable bytes is never acceptable.
    fn fill(&self, out: &mut [u8]) -> (r: Result<()>)
        ensures
            final(out)@.len() == old(out)@.len(),
    ;
}

impl RandomSource for () {
    fn fill(&self, _out: &mut [u8]) -> (r: Result<()>)
        ensures
            r == Err::<(), Error>(Error { kind: ErrorKind::Unsupported, offset: 0 }),
            final(_out)@ == old(_out)@,
    {
        Err(Error::new(ErrorKind::Unsupported, 0))
    }
}

/// A fixed byte sequence, for tests that need a *reproducible* challenge.
///
/// Never use this for anything that faces a network: a predictable challenge lets a
/// replayed HLS response authenticate.
#[derive(Debug, Clone, Copy)]
pub struct FixedRandom(pub u8);

impl RandomSource for FixedRandom {
    fn fill(&self, out: &mut [u8]) -> (r: Result<()>)
        ensures
            r is Ok,
            final(out)@ == Seq::new(old(out)@.len(), |i: int| self.0),
    {
        let ghost n = out@.len();
        let mut i: usize = 0;
        while i < out.len()
            invariant
                i <= out@.len() == n,
                forall|k: int| 0 <= k < i ==> out@[k] == self.0,
            decreases out@.len() - i,
        {
            out[i] = self.0;
            i += 1;
        }
        assert(out@ =~= Seq::new(n, |i: int| self.0));
        Ok(())
    }
}

/// Keys in this process's memory, cleared on drop.
///
/// Suitable for a head-end and for tests. On a meter, a provider backed by a secure
/// element keeps the key out of the application core entirely; that is the reason
/// [`CryptoProvider`] is a trait.
pub struct RustCryptoProvider<R = ()> {
    keys: KeyRing,
    rng: R,
}

impl RustCryptoProvider<()> {
    /// A provider over `keys` with no randomness source.
    ///
    /// [`CryptoProvider::random`] fails, so this cannot be used to generate an HLS
    /// challenge — deliberately, because a challenge from a predictable source is worse
    /// than no challenge.
    #[must_use]
    pub fn new(keys: KeyRing) -> (p: Self)
        ensures
            p.ring() == keys,
            p.source() == (),
    {
        RustCryptoProvider { keys, rng: () }
    }
}

/// A provider that holds no key, with the source's own default.
impl<R: Default> Default for RustCryptoProvider<R> {
    fn default() -> (p: Self)
        ensures
            p.ring()@ == Map::<KeyUsage, Seq<u8>>::empty(),
            call_ensures(R::default, (), p.source()),
    {
        RustCryptoProvider { keys: KeyRing::default(), rng: R::default() }
    }
}

/// The refusal of a key or suite that a provider does not have.
pub open spec fn unsupported() -> Error {
    Error { kind: ErrorKind::Unsupported, offset: 0 }
}

/// Data filled up with zeros to a whole number of blocks.
pub open spec fn block_padded(s: Seq<u8>) -> Seq<u8> {
    s + Seq::new(((16 - s.len() % 16) % 16) as nat, |i: int| 0u8)
}

/// What a GMAC hashes: the data filled up to a whole number of blocks, then its length in
/// bits, then that of the ciphertext, which is zero.
pub open spec fn gmac_input(aad: Seq<u8>) -> Seq<u8> {
    block_padded(aad) + be_bytes((aad.len() * 8) as nat % 0x1_0000_0000_0000_0000, 8) + Seq::new(
        8,
        |i: int| 0u8,
    )
}

/// What the cipher of a suite makes of one block.
pub open spec fn suite_block(key: Seq<u8>, suite: SecuritySuite, block: Seq<u8>) -> Seq<u8> {
    if suite is Suite2 {
        aes256_block(key, block)
    } else {
        aes128_block(key, block)
    }
}

/// The leftmost 96 bits of `GHASH(H, A ‖ pad ‖ len(A) ‖ 0) ⊕ AES(K, IV ‖ 1)`, where `H` is
/// the cipher applied to zeros: a GCM tag with an empty plaintext.
pub open spec fn gmac_tag(key: Seq<u8>, suite: SecuritySuite, nonce: Seq<u8>, aad: Seq<u8>) -> Seq<u8> {
    let subkey = suite_block(key, suite, Seq::new(16, |i: int| 0u8));
    let mask = suite_block(key, suite, nonce + seq![0u8, 0, 0, 1]);
    let hash = ghash_of(subkey, gmac_input(aad));
    Seq::new(12, |i: int| hash[i] ^ mask[i])
}

impl<R> RustCryptoProvider<R> {
    /// The keys that it holds.
    pub closed spec fn ring(&self) -> KeyRing {
        self.keys
    }

    /// Where it gets randomness.
    pub closed spec fn source(&self) -> R {
        self.rng
    }

    /// The bytes of a key, if they are given or held.
    pub open spec fn key(&self, key: KeyRefV) -> Result<Seq<u8>> {
        match key {
            KeyRefV::Raw(b) => Ok(b),
            KeyRefV::Usage(u) => if self.ring()@.dom().contains(u) {
                Ok(self.ring()@[u])
            } else {
                Err(unsupported())
            },
        }
    }

    /// The bytes of a key that is as long as a suite needs it.
    pub open spec fn suite_key(&self, key: KeyRefV, suite: SecuritySuite) -> Result<Seq<u8>> {
        match self.key(key) {
            Err(e) => Err(e),
            Ok(k) => if k.len() == suite.key_len() {
                Ok(k)
            } else {
                Err(unsupported())
            },
        }
    }

    /// A provider over `keys` that draws randomness from `rng`.
    pub fn with_rng(keys: KeyRing, rng: R) -> (p: Self)
        ensures
            p.ring() == keys,
            p.source() == rng,
    {
        RustCryptoProvider { keys, rng }
    }

    /// The keys.
    pub fn keys(&self) -> (r: &KeyRing)
        ensures
            *r == self.ring(),
    {
        &self.keys
    }

    /// The keys, mutably — for installing a dedicated key mid-association.
    pub fn keys_mut(&mut self) -> (r: &mut KeyRing)
        ensures
            *r == old(self).ring(),
            final(self).ring() == *final(r),
            final(self).source() == old(self).source(),
    {
        &mut self.keys
    }

    fn resolve<'k>(&'k self, key: KeyRef<'k>) -> (r: Result<&'k [u8]>)
        ensures
            match r {
                Ok(k) => self.key(key@) == Ok::<Seq<u8>, Error>(k@),
                Err(e) => self.key(key@) == Err::<Seq<u8>, Error>(e),
            },
    {
        match key {
            KeyRef::Raw(b) => Ok(b),
            KeyRef::Usage(u) => match self.keys.get(u) {
                Some(k) => Ok(k),
                None => Err(Error::new(ErrorKind::Unsupported, 0)),
            },
        }
    }

    fn resolve_for<'k>(&'k self, key: KeyRef<'k>, suite: SecuritySuite) -> (r: Result<&'k [u8]>)
        ensures
            match r {
                Ok(k) => self.suite_key(key@, suite) == Ok::<Seq<u8>, Error>(k@) && k@.len()
                    == suite.key_len(),
                Err(e) => self.suite_key(key@, suite) == Err::<Seq<u8>, Error>(e),
            },
    {
        let k = self.resolve(key)?;
        if k.len() != suite.key_len() {
            return Err(Error::new(ErrorKind::Unsupported, 0));
        }
        Ok(k)
    }
}

/// Encrypt one block in place with the suite's block cipher.
fn encrypt_block(key: &[u8], suite: SecuritySuite, block: &mut [u8; 16])
    requires
        key@.len() == suite.key_len(),
    ensures
        final(block)@ == suite_block(key@, suite, old(block)@),
{
    if matches!(suite, SecuritySuite::Suite2) {
        aes256_encrypt(&to_array::<32>(key), block)
    } else {
        aes128_encrypt(&to_array::<16>(key), block)
    }
}

/// Join the segments, as long as their lengths can be counted.
fn join(segments: &[&[u8]]) -> (r: Result<Vec<u8>>)
    ensures
        match r {
            Ok(v) => v@ == joined(segments@) && v@.len() <= u64::MAX,
            Err(e) => joined(segments@).len() > u64::MAX && e == (Error {
                kind: ErrorKind::InvalidLength,
                offset: 0,
            }),
        },
{
    let mut out: Vec<u8> = Vec::new();
    let mut total: u64 = 0;
    let mut i: usize = 0;
    assert(segments@.take(0) =~= Seq::<&[u8]>::empty());
    while i < segments.len()
        invariant
            i <= segments@.len(),
            out@ == joined(segments@.take(i as int)),
            total == out@.len(),
        decreases segments@.len() - i,
    {
        let segment = segments[i];
        proof {
            assert(segments@.take(i + 1).drop_last() =~= segments@.take(i as int));
            lemma_joined_grows(segments@, (i + 1) as nat);
        }
        total = match total.checked_add(segment.len() as u64) {
            Some(t) => t,
            None => {
                return Err(Error::new(ErrorKind::InvalidLength, 0));
            },
        };
        extend(&mut out, segment);
        i += 1;
    }
    assert(segments@.take(segments@.len() as int) =~= segments@);
    Ok(out)
}

/// The first segments join to no more than all of them.
proof fn lemma_joined_grows(s: Seq<&[u8]>, n: nat)
    requires
        n <= s.len(),
    ensures
        joined(s.take(n as int)).len() <= joined(s).len(),
    decreases s.len() - n,
{
    if n < s.len() {
        lemma_joined_grows(s, n + 1);
        assert(s.take((n + 1) as int).drop_last() =~= s.take(n as int));
    } else {
        assert(s.take(n as int) =~= s);
    }
}

/// What a GMAC over `aad` hashes.
fn gmac_blocks(aad: Vec<u8>) -> (r: Vec<u8>)
    requires
        aad@.len() <= u64::MAX,
    ensures
        r@ == gmac_input(aad@),
        r@.len() % 16 == 0,
{
    let mut blocks = aad;
    let total: u64 = blocks.len() as u64;
    let ghost data = blocks@;
    let fill: usize = (16 - blocks.len() % 16) % 16;
    let mut i: usize = 0;
    while i < fill
        invariant
            i <= fill <= 15,
            blocks@ == data + Seq::new(i as nat, |k: int| 0u8),
        decreases fill - i,
    {
        blocks.push(0);
        i += 1;
        assert(blocks@ =~= data + Seq::new(i as nat, |k: int| 0u8));
    }
    let bits: u64 = total.wrapping_mul(8);
    let lengths = be8(bits);
    extend(&mut blocks, lengths.as_slice());
    let zeros: [u8; 8] = [0; 8];
    assert(zeros@ =~= Seq::new(8, |i: int| 0u8));
    extend(&mut blocks, zeros.as_slice());
    proof {
        crate::bytes::lemma_be_bytes_len(bits as nat, 8);
        assert(bits as nat == (data.len() * 8) as nat % 0x1_0000_0000_0000_0000);
        assert(blocks@ =~= gmac_input(data));
    }
    blocks
}

impl<R: RandomSource> CryptoProvider for RustCryptoProvider<R> {
    open spec fn sealed(
        &self,
        key: KeyRefV,
        suite: SecuritySuite,
        nonce: Seq<u8>,
        aad: Seq<u8>,
        plain: Seq<u8>,
    ) -> Result<(Seq<u8>, Seq<u8>)> {
        match self.suite_key(key, suite) {
            Err(e) => Err(e),
            Ok(k) => if plain.len() > GCM_MAX || aad.len() > GCM_MAX {
                Err(unsupported())
            } else if suite is Suite2 {
                Ok(gcm256_sealed(k, nonce, aad, plain))
            } else {
                Ok(gcm128_sealed(k, nonce, aad, plain))
            },
        }
    }

    open spec fn opened(
        &self,
        key: KeyRefV,
        suite: SecuritySuite,
        nonce: Seq<u8>,
        aad: Seq<u8>,
        data: Seq<u8>,
        tag: Seq<u8>,
    ) -> Result<Seq<u8>> {
        match self.suite_key(key, suite) {
            Err(e) => Err(e),
            Ok(k) => {
                let bad = Error { kind: ErrorKind::BadTag, offset: 0 };
                let plain = if suite is Suite2 {
                    gcm256_opened(k, nonce, aad, data, tag)
                } else {
                    gcm128_opened(k, nonce, aad, data, tag)
                };
                if data.len() > GCM_CIPHERTEXT_MAX || aad.len() > GCM_MAX {
                    Err(bad)
                } else {
                    match plain {
                        Some(p) => Ok(p),
                        None => Err(bad),
                    }
                }
            },
        }
    }

    open spec fn mac(
        &self,
        key: KeyRefV,
        suite: SecuritySuite,
        nonce: Seq<u8>,
        aad: Seq<u8>,
    ) -> Result<Seq<u8>> {
        match self.suite_key(key, suite) {
            Err(e) => Err(e),
            Ok(k) => if aad.len() > u64::MAX {
                Err(Error { kind: ErrorKind::InvalidLength, offset: 0 })
            } else {
                Ok(gmac_tag(k, suite, nonce, aad))
            },
        }
    }

    open spec fn auth_bytes(&self) -> Option<Seq<u8>> {
        self.ring().slot(KeyUsage::Authentication)
    }

    open spec fn dedicated_bytes(&self) -> Option<Seq<u8>> {
        self.ring().slot(KeyUsage::Dedicated)
    }

    fn aead_seal(
        &self,
        key: KeyRef<'_>,
        suite: SecuritySuite,
        nonce: &[u8; 12],
        aad: &[u8],
        buf: &mut [u8],
    ) -> (r: Result<[u8; 12]>) {
        let k = self.resolve_for(key, suite)?;
        let tag = if matches!(suite, SecuritySuite::Suite2) {
            gcm256_encrypt(&to_array::<32>(k), nonce, aad, buf)
        } else {
            gcm128_encrypt(&to_array::<16>(k), nonce, aad, buf)
        };
        match tag {
            Some(tag) => Ok(tag),
            None => Err(Error::new(ErrorKind::Unsupported, 0)),
        }
    }

    fn aead_open(
        &self,
        key: KeyRef<'_>,
        suite: SecuritySuite,
        nonce: &[u8; 12],
        aad: &[u8],
        buf: &mut [u8],
        tag: &[u8; 12],
    ) -> (r: Result<()>) {
        let k = self.resolve_for(key, suite)?;
        let ok = if matches!(suite, SecuritySuite::Suite2) {
            gcm256_decrypt(&to_array::<32>(k), nonce, aad, buf, tag)
        } else {
            gcm128_decrypt(&to_array::<16>(k), nonce, aad, buf, tag)
        };
        if ok {
            Ok(())
        } else {
            Err(Error::new(ErrorKind::BadTag, 0))
        }
    }

    fn gmac(
        &self,
        key: KeyRef<'_>,
        suite: SecuritySuite,
        nonce: &[u8; 12],
        aad: &[&[u8]],
    ) -> (r: Result<[u8; 12]>) {
        let k = self.resolve_for(key, suite)?;
        // GMAC is GCM with an empty plaintext, so the tag is
        // `GHASH_H(A ‖ pad ‖ len(A) ‖ 0) ⊕ AES_K(IV ‖ 0x00000001)`.
        let mut hash_subkey: [u8; 16] = [0; 16];
        assert(hash_subkey@ =~= Seq::new(16, |i: int| 0u8));
        let n = *nonce;
        let mut mask: [u8; 16] = [
            n[0],
            n[1],
            n[2],
            n[3],
            n[4],
            n[5],
            n[6],
            n[7],
            n[8],
            n[9],
            n[10],
            n[11],
            0,
            0,
            0,
            1,
        ];
        assert(mask@ =~= nonce@ + seq![0u8, 0, 0, 1]);
        encrypt_block(k, suite, &mut hash_subkey);
        encrypt_block(k, suite, &mut mask);
        let blocks = gmac_blocks(join(aad)?);
        let hash = ghash_digest(&hash_subkey, blocks.as_slice());
        let mut tag: [u8; 12] = [0; 12];
        let mut i: usize = 0;
        while i < 12
            invariant
                i <= 12,
                forall|j: int| 0 <= j < i ==> tag@[j] == hash@[j] ^ mask@[j],
            decreases 12 - i,
        {
            tag[i] = hash[i] ^ mask[i];
            i += 1;
        }
        assert(tag@ =~= gmac_tag(k@, suite, nonce@, joined(aad@)));
        Ok(tag)
    }

    /// Wrap a key under a 128-bit key-encrypting key.
    fn key_wrap(&self, kek: KeyRef<'_>, key: &[u8], out: &mut [u8]) -> (r: Result<usize>)
        ensures
            match self.key(kek@) {
                Err(e) => r == Err::<usize, Error>(e) && final(out)@ == old(out)@,
                Ok(k) => if k.len() != 16 {
                    r == Err::<usize, Error>(unsupported()) && final(out)@ == old(out)@
                } else if old(out)@.len() < key@.len() + 8 {
                    r matches Err(e) && e.offset == 0 && (e.kind matches ErrorKind::BufferTooSmall {
                        needed,
                    } && needed == clip(key@.len() + 8 - old(out)@.len())) && final(out)@ == old(out)@
                } else if key@.len() % 8 != 0 {
                    r == Err::<usize, Error>(
                        Error { kind: ErrorKind::InvalidLength, offset: 0 },
                    ) && final(out)@ == old(out)@
                } else {
                    &&& r matches Ok(n) && n == key@.len() + 8
                    &&& final(out)@ == kw128_wrapped(k, key@) + old(out)@.skip((key@.len() + 8) as int)
                    &&& final(out)@.take((key@.len() + 8) as int) == kw128_wrapped(k, key@)
                    &&& kw128_unwrapped(k, final(out)@.take((key@.len() + 8) as int)) == Some(key@)
                },
            },
    {
        let k = self.resolve(kek)?;
        if k.len() != 16 {
            return Err(Error::new(ErrorKind::Unsupported, 0));
        }
        let room: usize = out.len();
        if room < 8 || room - 8 < key.len() {
            let short: usize = if room < 8 {
                key.len().saturating_add(8 - room)
            } else {
                key.len() - (room - 8)
            };
            return Err(Error::new(ErrorKind::BufferTooSmall { needed: short }, 0));
        }
        let n: usize = key.len() + 8;
        let mut wrapped: Vec<u8> = vec![0u8; n];
        if !kw128_wrap(&to_array::<16>(k), key, wrapped.as_mut_slice()) {
            return Err(Error::new(ErrorKind::InvalidLength, 0));
        }
        copy_into(out, wrapped.as_slice());
        assert(out@.take(n as int) =~= wrapped@);
        Ok(n)
    }

    /// Unwrap a key with a 128-bit key-encrypting key.
    fn key_unwrap(&self, kek: KeyRef<'_>, wrapped: &[u8], out: &mut [u8]) -> (r: Result<usize>)
        ensures
            match self.key(kek@) {
                Err(e) => r == Err::<usize, Error>(e) && final(out)@ == old(out)@,
                Ok(k) => if k.len() != 16 {
                    r == Err::<usize, Error>(unsupported()) && final(out)@ == old(out)@
                } else if wrapped@.len() < 8 {
                    r == Err::<usize, Error>(
                        Error { kind: ErrorKind::InvalidLength, offset: 0 },
                    ) && final(out)@ == old(out)@
                } else if old(out)@.len() < wrapped@.len() - 8 {
                    r matches Err(e) && e.offset == 0 && (e.kind matches ErrorKind::BufferTooSmall {
                        needed,
                    } && needed == wrapped@.len() - 8 - old(out)@.len()) && final(out)@ == old(
                        out,
                    )@
                } else if wrapped@.len() % 8 != 0 {
                    r == Err::<usize, Error>(Error { kind: ErrorKind::BadTag, offset: 0 })
                        && final(out)@ == old(out)@
                } else {
                    match kw128_unwrapped(k, wrapped@) {
                        Some(key) => r == Ok::<usize, Error>((wrapped@.len() - 8) as usize)
                            && final(out)@ == key + old(out)@.skip(wrapped@.len() - 8),
                        None => r == Err::<usize, Error>(
                            Error { kind: ErrorKind::BadTag, offset: 0 },
                        ) && final(out)@ == old(out)@,
                    }
                },
            },
    {
        let k = self.resolve(kek)?;
        if k.len() != 16 {
            return Err(Error::new(ErrorKind::Unsupported, 0));
        }
        if wrapped.len() < 8 {
            return Err(Error::new(ErrorKind::InvalidLength, 0));
        }
        let n: usize = wrapped.len() - 8;
        if out.len() < n {
            let short: usize = n - out.len();
            return Err(Error::new(ErrorKind::BufferTooSmall { needed: short }, 0));
        }
        let mut key: Vec<u8> = vec![0u8; n];
        if !kw128_unwrap(&to_array::<16>(k), wrapped, key.as_mut_slice()) {
            return Err(Error::new(ErrorKind::BadTag, 0));
        }
        copy_into(out, key.as_slice());
        Ok(n)
    }

    fn random(&self, out: &mut [u8]) -> (r: Result<()>)
        ensures
            exists|m: &mut [u8]|
                #![trigger call_ensures(R::fill, (&self.source(), m), r)]
                m@ == old(out)@ && final(m)@ == final(out)@ && call_ensures(
                    R::fill,
                    (&self.source(), m),
                    r,
                ),
    {
        assert(self.source() == self.rng);
        self.rng.fill(out)
    }

    fn authentication_key(&self) -> (r: Option<&[u8]>) {
        self.keys.get(KeyUsage::Authentication)
    }

    fn dedicated_key(&self) -> (r: Option<&[u8]>) {
        self.keys.get(KeyUsage::Dedicated)
    }

    fn set_dedicated_key(&mut self, key: Key) -> (r: Result<()>)
        ensures
            r is Ok,
            final(self).ring()@ == old(self).ring()@.insert(KeyUsage::Dedicated, key@),
            final(self).source() == old(self).source(),
    {
        let ghost bytes = key@;
        self.keys.set_dedicated(key);
        proof {
            lemma_slot(&self.keys, KeyUsage::Dedicated);
            lemma_slot(&self.keys, KeyUsage::Authentication);
            lemma_slot(&old(self).keys, KeyUsage::Authentication);
        }
        Ok(())
    }

    fn clear_dedicated_key(&mut self)
        ensures
            final(self).ring()@ == old(self).ring()@.remove(KeyUsage::Dedicated),
            final(self).dedicated_bytes() is None,
            final(self).source() == old(self).source(),
    {
        self.keys.clear_dedicated();
        proof {
            lemma_slot(&self.keys, KeyUsage::Dedicated);
            lemma_slot(&self.keys, KeyUsage::Authentication);
            lemma_slot(&old(self).keys, KeyUsage::Authentication);
        }
    }
}

/// A slot of a ring is what the ring says of its usage.
proof fn lemma_slot(ring: &KeyRing, u: KeyUsage)
    ensures
        ring.slot(u) == (if ring@.dom().contains(u) {
            Some(ring@[u])
        } else {
            None
        }),
{
}

} // verus!
