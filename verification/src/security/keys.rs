//! Keys, and the things that name them.

use vstd::prelude::*;
#[allow(unused_imports)]
use vstd::string::StringSliceAdditionalSpecFns;

use crate::bytes::{be4, padded, same_bytes};
use crate::codec::{to_array, Error, ErrorKind, Result};
use crate::text::{push_hex2_upper, push_text, utf8};
#[allow(unused_imports)]
use crate::bytes::{be_bytes, lemma_be_bytes_len, lemma_be_roundtrip, lemma_pow256};
#[allow(unused_imports)]
use crate::text::{hex2_upper, lemma_ascii_is_utf8};

verus! {

/// The eight-byte identity of a DLMS peer.
///
/// A system title is not a secret, but it is half of every nonce: reusing one across
/// two devices that share a key makes their nonces collide, which for GCM is a
/// key-recovery event rather than a privacy one.
#[derive(Debug, Clone, Copy, PartialOrd, Ord, Hash)]
pub struct SystemTitle(pub [u8; 8]);

impl View for SystemTitle {
    type V = Seq<u8>;

    open spec fn view(&self) -> Seq<u8> {
        self.0@
    }
}

impl PartialEq for SystemTitle {
    fn eq(&self, other: &Self) -> (r: bool) {
        same_bytes(self.0.as_slice(), other.0.as_slice())
    }
}

impl Eq for SystemTitle {

}

impl vstd::std_specs::cmp::PartialEqSpecImpl for SystemTitle {
    open spec fn obeys_eq_spec() -> bool {
        true
    }

    open spec fn eq_spec(&self, other: &Self) -> bool {
        self@ == other@
    }
}

impl Default for SystemTitle {
    fn default() -> (r: Self)
        ensures
            r@ == Seq::new(8, |i: int| 0u8),
    {
        let r = SystemTitle([0; 8]);
        assert(r@ =~= Seq::new(8, |i: int| 0u8));
        r
    }
}

/// The bytes of a title in upper-case hexadecimal.
pub open spec fn title_text(b: Seq<u8>) -> Seq<char>
    decreases b.len(),
{
    if b.len() == 0 {
        Seq::empty()
    } else {
        title_text(b.drop_last()) + hex2_upper(b.last())
    }
}

/// A printable ASCII character.
pub open spec fn printable(b: u8) -> bool {
    0x20 <= b <= 0x7E
}

impl SystemTitle {
    /// From the eight bytes.
    #[must_use]
    pub fn new(bytes: [u8; 8]) -> (r: Self)
        ensures
            r.0 == bytes,
    {
        SystemTitle(bytes)
    }

    /// From a slice that must be exactly eight bytes.
    pub fn from_slice(bytes: &[u8]) -> (r: Result<Self>)
        ensures
            match r {
                Ok(t) => t@ == bytes@,
                Err(e) => bytes@.len() != 8 && e == (Error {
                    kind: ErrorKind::InvalidLength,
                    offset: 0,
                }),
            },
    {
        if bytes.len() != 8 {
            return Err(Error::new(ErrorKind::InvalidLength, 0));
        }
        Ok(SystemTitle(to_array::<8>(bytes)))
    }

    /// The bytes.
    #[must_use]
    pub fn as_bytes(&self) -> (r: &[u8; 8])
        ensures
            r@ == self@,
    {
        &self.0
    }

    /// The three-character manufacturer identifier, when it is printable ASCII.
    #[must_use]
    pub fn manufacturer(&self) -> (r: Option<&str>)
        ensures
            r is Some <==> printable(self@[0]) && printable(self@[1]) && printable(self@[2]),
            r matches Some(s) ==> s.spec_bytes() == self@.take(3),
    {
        let id: &[u8] = vstd::slice::slice_subrange(self.0.as_slice(), 0, 3);
        assert(id@ =~= self@.take(3));
        if id[0] < 0x20 || id[0] > 0x7E || id[1] < 0x20 || id[1] > 0x7E || id[2] < 0x20 || id[2]
            > 0x7E {
            return None;
        }
        proof {
            lemma_ascii_is_utf8(id@);
        }
        utf8(id)
    }

    /// The bytes in upper-case hexadecimal.
    #[must_use]
    pub fn to_string(&self) -> (s: String)
        ensures
            s@ == title_text(self@),
    {
        let mut s = String::new();
        let mut i: usize = 0;
        while i < 8
            invariant
                i <= 8,
                s@ == title_text(self@.take(i as int)),
            decreases 8 - i,
        {
            assert(self@.take(i + 1).drop_last() =~= self@.take(i as int));
            push_hex2_upper(&mut s, self.0[i]);
            i += 1;
        }
        assert(self@.take(8) =~= self@);
        s
    }
}

/// Two titles with the same bytes are the same title.
pub proof fn lemma_title_ext(a: SystemTitle, b: SystemTitle)
    requires
        a@ == b@,
    ensures
        a == b,
{
    assert forall|i: int| 0 <= i < 8 implies a.0[i] == b.0[i] by {
        assert(a@[i] == b@[i]);
    }
    assert(a.0 =~= b.0);
}

/// What a key is for.
#[derive(Debug, Clone, Copy, PartialEq, Eq, PartialOrd, Ord, Hash, Structural)]
pub enum KeyUsage {
    /// The global unicast encryption key, which protects ordinary traffic.
    GlobalUnicastEncryption,
    /// The global broadcast encryption key, used for messages to many meters at once.
    GlobalBroadcastEncryption,
    /// The authentication key, which is authenticated data rather than a cipher key.
    Authentication,
    /// The key-encrypting key, under which other keys are wrapped for transport.
    KeyEncrypting,
    /// The key negotiated for this association only, carried in the InitiateRequest.
    Dedicated,
}

impl KeyUsage {
    /// The `Key-Id` this usage has in `general-ciphering`'s identified-key form.
    ///
    /// `Key-Id` is an enumeration of exactly two values — `global-unicast-encryption-key`
    /// (0) and `global-broadcast-encryption-key` (1). Every other usage answers `None`
    /// rather than inventing a number: the authentication key in particular is *never* an
    /// identified key, because identified-key names the key that deciphers the content
    /// and the authentication key never does that.
    #[must_use]
    #[verifier::allow_in_spec]
    pub fn key_id(self) -> Option<u8>
        returns
            (match self {
                KeyUsage::GlobalUnicastEncryption => Some(0u8),
                KeyUsage::GlobalBroadcastEncryption => Some(1u8),
                _ => None,
            }),
    {
        match self {
            Self::GlobalUnicastEncryption => Some(0),
            Self::GlobalBroadcastEncryption => Some(1),
            Self::Authentication | Self::KeyEncrypting | Self::Dedicated => None,
        }
    }
}

/// A key, or the name of one.
pub enum KeyRefV {
    /// One of the well-known keys of this association.
    Usage(KeyUsage),
    /// The bytes themselves.
    Raw(Seq<u8>),
}

/// A reference to a key, without the key.
///
/// A provider resolves this to material it holds — bytes in memory, a slot in a secure
/// element, a handle in an HSM.
#[derive(Debug, Clone, Copy, PartialEq, Eq)]
pub enum KeyRef<'a> {
    /// One of the well-known keys of this association.
    Usage(KeyUsage),
    /// Raw bytes supplied by the caller, for one operation.
    Raw(&'a [u8]),
}

impl<'a> View for KeyRef<'a> {
    type V = KeyRefV;

    open spec fn view(&self) -> KeyRefV {
        match *self {
            KeyRef::Usage(u) => KeyRefV::Usage(u),
            KeyRef::Raw(b) => KeyRefV::Raw(b@),
        }
    }
}

impl<'a> From<KeyUsage> for KeyRef<'a> {
    fn from(u: KeyUsage) -> (r: Self) {
        KeyRef::Usage(u)
    }
}

impl<'a> vstd::std_specs::convert::FromSpecImpl<KeyUsage> for KeyRef<'a> {
    open spec fn obeys_from_spec() -> bool {
        true
    }

    open spec fn from_spec(u: KeyUsage) -> KeyRef<'a> {
        KeyRef::Usage(u)
    }
}

/// A symmetric key: 16 bytes for suites 0 and 1, 32 for suite 2.
///
/// Fixed capacity, so it needs no allocator. [`Key::to_debug`] gives `[REDACTED]`, so a
/// structured log of anything containing a key cannot leak it by accident, and the bytes
/// are cleared when the key is dropped.
///
/// The length is carried rather than fixed by a type parameter because the suite decides
/// it and the suite arrives on the wire.
pub struct Key {
    buf: [u8; 32],
    len: u8,
}

impl View for Key {
    type V = Seq<u8>;

    closed spec fn view(&self) -> Seq<u8> {
        self.buf@.take(self.len as int)
    }
}

impl Clone for Key {
    fn clone(&self) -> (r: Self)
        ensures
            r@ == self@,
    {
        proof {
            use_type_invariant(self);
        }
        Key { buf: self.buf, len: self.len }
    }
}

impl PartialEq for Key {
    fn eq(&self, other: &Self) -> (r: bool) {
        same_bytes(self.expose(), other.expose())
    }
}

impl Eq for Key {

}

impl vstd::std_specs::cmp::PartialEqSpecImpl for Key {
    open spec fn obeys_eq_spec() -> bool {
        true
    }

    open spec fn eq_spec(&self, other: &Self) -> bool {
        self@ == other@
    }
}

impl Key {
    /// The longest key this can hold: 256 bits, which is suite 2's.
    pub const MAX_LEN: usize = 32;

    #[verifier::type_invariant]
    closed spec fn inv(self) -> bool {
        self.len == 16 || self.len == 32
    }

    /// A 128-bit key, the size suites 0 and 1 use.
    #[must_use]
    pub fn new(bytes: [u8; 16]) -> (r: Self)
        ensures
            r@ == bytes@,
    {
        let buf = padded::<32>(bytes.as_slice());
        let r = Key { buf, len: 16 };
        assert(r@ =~= bytes@);
        r
    }

    /// A 256-bit key, the size suite 2 uses.
    #[must_use]
    pub fn new_256(bytes: [u8; 32]) -> (r: Self)
        ensures
            r@ == bytes@,
    {
        let r = Key { buf: bytes, len: 32 };
        assert(r@ =~= bytes@);
        r
    }

    /// A key from a slice that must be 16 or 32 bytes long.
    ///
    /// Any other length is refused rather than padded: a key silently zero-extended to
    /// the cipher's block size is a key nobody chose.
    ///
    /// # Errors
    /// [`ErrorKind::InvalidLength`] for any length but 16 or 32.
    pub fn from_slice(bytes: &[u8]) -> (r: Result<Self>)
        ensures
            match r {
                Ok(k) => k@ == bytes@ && (bytes@.len() == 16 || bytes@.len() == 32),
                Err(e) => bytes@.len() != 16 && bytes@.len() != 32 && e == (Error {
                    kind: ErrorKind::InvalidLength,
                    offset: 0,
                }),
            },
    {
        if bytes.len() != 16 && bytes.len() != 32 {
            return Err(Error::new(ErrorKind::InvalidLength, 0));
        }
        let buf = padded::<32>(bytes);
        let r = Key { buf, len: bytes.len() as u8 };
        assert(r@ =~= bytes@);
        Ok(r)
    }

    /// The bytes. Every call site is a place a key could escape, so there is exactly one
    /// and it is named.
    #[must_use]
    pub fn expose(&self) -> (r: &[u8])
        ensures
            r@ == self@,
            r@.len() == 16 || r@.len() == 32,
    {
        proof {
            use_type_invariant(self);
        }
        let r: &[u8] = vstd::slice::slice_subrange(self.buf.as_slice(), 0, self.len as usize);
        assert(r@ =~= self@);
        r
    }

    /// How many bytes the key has.
    #[must_use]
    pub fn len(&self) -> (r: usize)
        ensures
            r == self@.len(),
            r == 16 || r == 32,
    {
        proof {
            use_type_invariant(self);
        }
        self.len as usize
    }

    /// Always false; a key has at least sixteen bytes.
    #[must_use]
    pub fn is_empty(&self) -> (r: bool)
        ensures
            !r,
            self@.len() > 0,
    {
        proof {
            use_type_invariant(self);
        }
        false
    }

    /// How a key shows in a log: not at all.
    #[must_use]
    pub fn to_debug(&self) -> (s: String)
        ensures
            s@ == "[REDACTED]"@,
    {
        let mut s = String::new();
        push_text(&mut s, "[REDACTED]");
        s
    }
}

impl Drop for Key {
    fn drop(&mut self)
        opens_invariants none
        no_unwind
    {
        proof {
            use_type_invariant(&*self);
        }
        wipe(&mut self.buf);
    }
}

/// Overwrite an array with zeros, by `zeroize::Zeroize::zeroize` on it, whose stores the
/// compiler may not leave out.
#[verifier::external_body]
fn wipe<const N: usize>(buf: &mut [u8; N])
    ensures
        final(buf)@ == Seq::new(N as nat, |i: int| 0u8),
    opens_invariants none
    no_unwind
{
    zeroize::Zeroize::zeroize(buf)
}

impl From<[u8; 16]> for Key {
    fn from(v: [u8; 16]) -> (r: Self)
        ensures
            r@ == v@,
    {
        Key::new(v)
    }
}

impl vstd::std_specs::convert::FromSpecImpl<[u8; 16]> for Key {
    open spec fn obeys_from_spec() -> bool {
        false
    }

    open spec fn from_spec(v: [u8; 16]) -> Key {
        arbitrary()
    }
}

impl From<[u8; 32]> for Key {
    fn from(v: [u8; 32]) -> (r: Self)
        ensures
            r@ == v@,
    {
        Key::new_256(v)
    }
}

impl vstd::std_specs::convert::FromSpecImpl<[u8; 32]> for Key {
    open spec fn obeys_from_spec() -> bool {
        false
    }

    open spec fn from_spec(v: [u8; 32]) -> Key {
        arbitrary()
    }
}

/// A variable-length credential: an LLS password, or an HLS shared secret.
///
/// Fixed capacity, so it needs no allocator, and 64 bytes because that is the longest
/// challenge that is allowed. Like [`Key`] it shows as `[REDACTED]`, and clears
/// itself when dropped.
pub struct Secret {
    buf: [u8; 64],
    len: u8,
}

impl View for Secret {
    type V = Seq<u8>;

    closed spec fn view(&self) -> Seq<u8> {
        self.buf@.take(self.len as int)
    }
}

impl Clone for Secret {
    fn clone(&self) -> (r: Self)
        ensures
            r@ == self@,
    {
        proof {
            use_type_invariant(self);
        }
        Secret { buf: self.buf, len: self.len }
    }
}

impl PartialEq for Secret {
    fn eq(&self, other: &Self) -> (r: bool) {
        same_bytes(self.expose(), other.expose())
    }
}

impl Eq for Secret {

}

impl vstd::std_specs::cmp::PartialEqSpecImpl for Secret {
    open spec fn obeys_eq_spec() -> bool {
        true
    }

    open spec fn eq_spec(&self, other: &Self) -> bool {
        self@ == other@
    }
}

impl Secret {
    /// The longest secret this can hold.
    pub const MAX_LEN: usize = 64;

    #[verifier::type_invariant]
    closed spec fn inv(self) -> bool {
        self.len <= 64
    }

    /// Copy `bytes` into a secret.
    ///
    /// # Errors
    /// [`ErrorKind::InvalidLength`] when `bytes` is longer than [`Secret::MAX_LEN`].
    pub fn new(bytes: &[u8]) -> (r: Result<Self>)
        ensures
            match r {
                Ok(s) => s@ == bytes@ && bytes@.len() <= Secret::MAX_LEN,
                Err(e) => bytes@.len() > Secret::MAX_LEN && e == (Error {
                    kind: ErrorKind::InvalidLength,
                    offset: 0,
                }),
            },
    {
        if bytes.len() > Self::MAX_LEN {
            return Err(Error::new(ErrorKind::InvalidLength, 0));
        }
        let buf = padded::<64>(bytes);
        let r = Secret { buf, len: bytes.len() as u8 };
        assert(r@ =~= bytes@);
        Ok(r)
    }

    /// The bytes. Every call site is a place a secret could escape, so there is exactly
    /// one and it is named.
    #[must_use]
    pub fn expose(&self) -> (r: &[u8])
        ensures
            r@ == self@,
            r@.len() <= Secret::MAX_LEN,
    {
        proof {
            use_type_invariant(self);
        }
        let r: &[u8] = vstd::slice::slice_subrange(self.buf.as_slice(), 0, self.len as usize);
        assert(r@ =~= self@);
        r
    }

    /// How a secret shows in a log: not at all.
    #[must_use]
    pub fn to_debug(&self) -> (s: String)
        ensures
            s@ == "[REDACTED]"@,
    {
        let mut s = String::new();
        push_text(&mut s, "[REDACTED]");
        s
    }
}

impl Drop for Secret {
    fn drop(&mut self)
        opens_invariants none
        no_unwind
    {
        proof {
            use_type_invariant(&*self);
        }
        wipe(&mut self.buf);
    }
}

/// The bytes of a key that may be missing.
pub open spec fn key_bytes(k: Option<Key>) -> Option<Seq<u8>> {
    match k {
        Some(k) => Some(k@),
        None => None,
    }
}

/// The symmetric keys of one association.
///
/// Every entry is a [`Key`], so one ring serves suite 0, suite 1 and suite 2 without the
/// caller choosing a width at compile time.
pub struct KeyRing {
    /// Global unicast encryption key.
    pub guek: Option<Key>,
    /// Global broadcast encryption key.
    pub gbek: Option<Key>,
    /// Authentication key. Authenticated as additional data, never used as a cipher key.
    pub gak: Option<Key>,
    /// Key-encrypting key, also called the master key.
    pub kek: Option<Key>,
    /// The key for this association only, delivered inside the ciphered
    /// InitiateRequest. Dropped when the association is released.
    pub dedicated: Option<Key>,
}

impl View for KeyRing {
    type V = Map<KeyUsage, Seq<u8>>;

    /// The bytes of each key that the ring holds.
    open spec fn view(&self) -> Map<KeyUsage, Seq<u8>> {
        Map::new(|u: KeyUsage| self.slot(u) is Some, |u: KeyUsage| self.slot(u)->0)
    }
}

impl Default for KeyRing {
    fn default() -> (r: Self)
        ensures
            r@ == Map::<KeyUsage, Seq<u8>>::empty(),
    {
        let r = KeyRing { guek: None, gbek: None, gak: None, kek: None, dedicated: None };
        assert(r@ =~= Map::<KeyUsage, Seq<u8>>::empty());
        r
    }
}

fn copy_key(k: &Option<Key>) -> (r: Option<Key>)
    ensures
        key_bytes(r) == key_bytes(*k),
{
    match k {
        Some(k) => Some(k.clone()),
        None => None,
    }
}

impl Clone for KeyRing {
    fn clone(&self) -> (r: Self)
        ensures
            r@ == self@,
    {
        let r = KeyRing {
            guek: copy_key(&self.guek),
            gbek: copy_key(&self.gbek),
            gak: copy_key(&self.gak),
            kek: copy_key(&self.kek),
            dedicated: copy_key(&self.dedicated),
        };
        assert(r@ =~= self@);
        r
    }
}

fn push_slot(s: &mut String, name: &str, k: &Option<Key>)
    ensures
        final(s)@ == old(s)@ + name@ + slot_text(k is Some),
{
    let ghost s0 = s@;
    push_text(s, name);
    match k {
        Some(_) => push_text(s, ": Some([REDACTED])"),
        None => push_text(s, ": None"),
    }
}

/// How a slot of a ring shows: whether there is a key, and no more.
pub open spec fn slot_text(held: bool) -> Seq<char> {
    if held {
        ": Some([REDACTED])"@
    } else {
        ": None"@
    }
}

impl KeyRing {
    /// The bytes of the key for a usage.
    pub open spec fn slot(self, usage: KeyUsage) -> Option<Seq<u8>> {
        match usage {
            KeyUsage::GlobalUnicastEncryption => key_bytes(self.guek),
            KeyUsage::GlobalBroadcastEncryption => key_bytes(self.gbek),
            KeyUsage::Authentication => key_bytes(self.gak),
            KeyUsage::KeyEncrypting => key_bytes(self.kek),
            KeyUsage::Dedicated => key_bytes(self.dedicated),
        }
    }

    /// A ring with the two 128-bit keys an ordinary suite-0 association needs.
    #[must_use]
    pub fn new(guek: [u8; 16], gak: [u8; 16]) -> (r: Self)
        ensures
            r@ == map![
                KeyUsage::GlobalUnicastEncryption => guek@,
                KeyUsage::Authentication => gak@,
            ],
    {
        let r = KeyRing {
            guek: Some(Key::new(guek)),
            gak: Some(Key::new(gak)),
            gbek: None,
            kek: None,
            dedicated: None,
        };
        assert(r@ =~= map![
            KeyUsage::GlobalUnicastEncryption => guek@,
            KeyUsage::Authentication => gak@,
        ]);
        r
    }

    /// A ring with the two 256-bit keys a suite-2 association needs.
    #[must_use]
    pub fn new_256(guek: [u8; 32], gak: [u8; 32]) -> (r: Self)
        ensures
            r@ == map![
                KeyUsage::GlobalUnicastEncryption => guek@,
                KeyUsage::Authentication => gak@,
            ],
    {
        let r = KeyRing {
            guek: Some(Key::new_256(guek)),
            gak: Some(Key::new_256(gak)),
            gbek: None,
            kek: None,
            dedicated: None,
        };
        assert(r@ =~= map![
            KeyUsage::GlobalUnicastEncryption => guek@,
            KeyUsage::Authentication => gak@,
        ]);
        r
    }

    /// The key for a usage, if the ring holds it.
    #[must_use]
    pub fn get(&self, usage: KeyUsage) -> (r: Option<&[u8]>)
        ensures
            match r {
                Some(k) => self@.dom().contains(usage) && k@ == self@[usage] && (k@.len() == 16
                    || k@.len() == 32),
                None => !self@.dom().contains(usage),
            },
    {
        let slot = match usage {
            KeyUsage::GlobalUnicastEncryption => &self.guek,
            KeyUsage::GlobalBroadcastEncryption => &self.gbek,
            KeyUsage::Authentication => &self.gak,
            KeyUsage::KeyEncrypting => &self.kek,
            KeyUsage::Dedicated => &self.dedicated,
        };
        match slot {
            Some(k) => Some(k.expose()),
            None => None,
        }
    }

    /// Install a key for a usage.
    pub fn set(&mut self, usage: KeyUsage, key: Key)
        ensures
            final(self)@ == old(self)@.insert(usage, key@),
    {
        let ghost before = self@;
        let ghost bytes = key@;
        match usage {
            KeyUsage::GlobalUnicastEncryption => self.guek = Some(key),
            KeyUsage::GlobalBroadcastEncryption => self.gbek = Some(key),
            KeyUsage::Authentication => self.gak = Some(key),
            KeyUsage::KeyEncrypting => self.kek = Some(key),
            KeyUsage::Dedicated => self.dedicated = Some(key),
        }
        assert(self@ =~= before.insert(usage, bytes));
    }

    /// Install the dedicated key for an association.
    pub fn set_dedicated(&mut self, key: Key)
        ensures
            final(self)@ == old(self)@.insert(KeyUsage::Dedicated, key@),
    {
        let ghost before = self@;
        let ghost bytes = key@;
        self.dedicated = Some(key);
        assert(self@ =~= before.insert(KeyUsage::Dedicated, bytes));
    }

    /// Forget the dedicated key. Called when the association is released, so a key
    /// cannot outlive the association that negotiated it.
    pub fn clear_dedicated(&mut self)
        ensures
            final(self)@ == old(self)@.remove(KeyUsage::Dedicated),
    {
        let ghost before = self@;
        self.dedicated = None;
        assert(self@ =~= before.remove(KeyUsage::Dedicated));
    }

    /// How a ring shows in a log: which keys it holds, and none of their bytes.
    #[must_use]
    pub fn to_debug(&self) -> (s: String)
        ensures
            s@ == "KeyRing { guek"@ + slot_text(self.guek is Some) + ", gbek"@ + slot_text(
                self.gbek is Some,
            ) + ", gak"@ + slot_text(self.gak is Some) + ", kek"@ + slot_text(self.kek is Some)
                + ", dedicated"@ + slot_text(self.dedicated is Some) + " }"@,
    {
        let mut s = String::new();
        push_slot(&mut s, "KeyRing { guek", &self.guek);
        assert(s@ =~= "KeyRing { guek"@ + slot_text(self.guek is Some));
        push_slot(&mut s, ", gbek", &self.gbek);
        push_slot(&mut s, ", gak", &self.gak);
        push_slot(&mut s, ", kek", &self.kek);
        push_slot(&mut s, ", dedicated", &self.dedicated);
        push_text(&mut s, " }");
        s
    }
}

/// The nonce of a title and a counter: the title, then the counter.
pub open spec fn nonce_bytes(title: Seq<u8>, ic: u32) -> Seq<u8> {
    title + be_bytes(ic as nat, 4)
}

/// Build the twelve-byte GCM nonce: system title, then invocation counter.
#[must_use]
pub fn nonce(system_title: &SystemTitle, invocation_counter: u32) -> (r: [u8; 12])
    ensures
        r@ == nonce_bytes(system_title@, invocation_counter),
{
    let t = system_title.0;
    let c = be4(invocation_counter);
    let r = [t[0], t[1], t[2], t[3], t[4], t[5], t[6], t[7], c[0], c[1], c[2], c[3]];
    assert(r@ =~= t@ + c@);
    r
}

/// No two counters give the same nonce, nor do two titles.
pub proof fn law_nonces_differ(t1: SystemTitle, ic1: u32, t2: SystemTitle, ic2: u32)
    requires
        nonce_bytes(t1@, ic1) == nonce_bytes(t2@, ic2),
    ensures
        t1 == t2,
        ic1 == ic2,
{
    let (n1, n2) = (nonce_bytes(t1@, ic1), nonce_bytes(t2@, ic2));
    lemma_be_bytes_len(ic1 as nat, 4);
    lemma_be_bytes_len(ic2 as nat, 4);
    assert(n1.take(8) =~= t1@);
    assert(n2.take(8) =~= t2@);
    lemma_title_ext(t1, t2);
    assert(n1.skip(8) =~= be_bytes(ic1 as nat, 4));
    assert(n2.skip(8) =~= be_bytes(ic2 as nat, 4));
    lemma_pow256();
    lemma_be_roundtrip(ic1 as nat, 4);
    lemma_be_roundtrip(ic2 as nat, 4);
}

} // verus!
