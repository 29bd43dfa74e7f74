//! Applying and removing protection.
//!
//! The composition rules are the part worth stating plainly, because the three modes
//! authenticate different things:
//!
//! | Security control | Additional authenticated data | Payload |
//! |---|---|---|
//! | authenticated **and** encrypted | `SC ‖ AK` | ciphertext ‖ tag |
//! | authenticated only | `SC ‖ AK ‖ plaintext` | plaintext ‖ tag |
//! | encrypted only | *(none)* | ciphertext |

use vstd::prelude::*;

use super::keys::{nonce, Key, KeyRef, KeyUsage, SystemTitle};
use super::{CryptoProvider, SecuritySuite};
use crate::bytes::{be4, copy_into};
use crate::codec::{extend, to_array, Error, ErrorKind, Result};
use crate::xdlms::ciphering::SecurityControl;
#[allow(unused_imports)]
use super::keys::{nonce_bytes, KeyRefV};
#[allow(unused_imports)]
use super::{joined, law_suite_round_trip, suite_of};
#[allow(unused_imports)]
use crate::bytes::{be_bytes, be_nat, lemma_be_bytes_len, lemma_be_roundtrip, lemma_pow256};
#[allow(unused_imports)]
use crate::codec::clip;
#[allow(unused_imports)]
use crate::xdlms::ciphering::law_control_fields;

verus! {

/// Which symmetric key set an association protects with.
///
/// One field rather than two flags: the three are alternatives, and "dedicated and
/// broadcast at once" would name a key nothing holds.
#[derive(Debug, Clone, Copy, PartialEq, Eq, Structural)]
pub enum KeySet {
    /// The global unicast encryption key — ordinary traffic, and everything that runs
    /// before an association has a key of its own.
    GlobalUnicast,
    /// The global broadcast encryption key, shared across a fleet.
    GlobalBroadcast,
    /// The key this association negotiated, delivered in the `InitiateRequest`.
    Dedicated,
}

impl Default for KeySet {
    fn default() -> (r: Self)
        ensures
            r == KeySet::GlobalUnicast,
    {
        KeySet::GlobalUnicast
    }
}

impl KeySet {
    /// The key this set resolves to.
    #[must_use]
    #[verifier::allow_in_spec]
    pub fn usage(self) -> KeyUsage
        returns
            (match self {
                KeySet::GlobalUnicast => KeyUsage::GlobalUnicastEncryption,
                KeySet::GlobalBroadcast => KeyUsage::GlobalBroadcastEncryption,
                KeySet::Dedicated => KeyUsage::Dedicated,
            }),
    {
        match self {
            Self::GlobalUnicast => KeyUsage::GlobalUnicastEncryption,
            Self::GlobalBroadcast => KeyUsage::GlobalBroadcastEncryption,
            Self::Dedicated => KeyUsage::Dedicated,
        }
    }

    /// Whether the security control byte's broadcast bit is set for this key set.
    #[must_use]
    #[verifier::allow_in_spec]
    pub fn is_broadcast(self) -> bool
        returns
            self is GlobalBroadcast,
    {
        matches!(self, Self::GlobalBroadcast)
    }

    /// Whether this is the association's own negotiated key.
    #[must_use]
    #[verifier::allow_in_spec]
    pub fn is_dedicated(self) -> bool
        returns
            self is Dedicated,
    {
        matches!(self, Self::Dedicated)
    }
}

/// What protection an association applies and demands.
#[derive(Debug, Clone, Copy, PartialEq, Eq, Structural)]
pub struct SecurityPolicy {
    /// The suite in use.
    pub suite: SecuritySuite,
    /// Whether outgoing APDUs are authenticated.
    pub authenticated: bool,
    /// Whether outgoing APDUs are encrypted.
    pub encrypted: bool,
    /// Which key set protects an APDU — and, on the receiving side, which one this end
    /// will *accept*.
    ///
    /// The security control byte's broadcast bit is the sender's claim. Letting it choose
    /// the key would hand an attacker that choice, so this states what is demanded, and a
    /// frame whose bit disagrees is refused before a key is touched.
    pub key_set: KeySet,
}

impl Default for SecurityPolicy {
    fn default() -> (r: Self)
        ensures
            r == SecurityPolicy::NONE(),
    {
        SecurityPolicy::NONE()
    }
}

impl SecurityPolicy {
    /// No protection at all.
    #[must_use]
    #[allow(non_snake_case)]
    #[verifier::allow_in_spec]
    pub fn NONE() -> Self
        returns
            (SecurityPolicy {
                suite: SecuritySuite::Suite0,
                authenticated: false,
                encrypted: false,
                key_set: KeySet::GlobalUnicast,
            }),
    {
        SecurityPolicy {
            suite: SecuritySuite::Suite0,
            authenticated: false,
            encrypted: false,
            key_set: KeySet::GlobalUnicast,
        }
    }

    /// Authenticated and encrypted with the given suite — what a ciphered association
    /// normally uses.
    #[must_use]
    #[verifier::allow_in_spec]
    pub fn authenticated_encrypted(suite: SecuritySuite) -> Self
        returns
            (SecurityPolicy {
                suite,
                authenticated: true,
                encrypted: true,
                key_set: KeySet::GlobalUnicast,
            }),
    {
        SecurityPolicy {
            suite,
            authenticated: true,
            encrypted: true,
            key_set: KeySet::GlobalUnicast,
        }
    }

    /// The same protection on the **global unicast** key set.
    ///
    /// The `InitiateRequest` and `InitiateResponse` are always protected this way, even
    /// in an association that will use a dedicated key for everything afterwards: the
    /// dedicated key is *delivered* inside the ciphered `InitiateRequest`, so nothing
    /// can be protected with it before that message has been opened. The same holds for
    /// HLS, which runs before the association is open.
    #[must_use]
    #[verifier::allow_in_spec]
    pub fn global(self) -> Self
        returns
            (SecurityPolicy { key_set: KeySet::GlobalUnicast, ..self }),
    {
        SecurityPolicy { key_set: KeySet::GlobalUnicast, ..self }
    }

    /// The same protection with the dedicated key set, or back on the unicast one.
    #[must_use]
    #[verifier::allow_in_spec]
    pub fn with_dedicated(self, dedicated: bool) -> Self
        returns
            (SecurityPolicy {
                key_set: if dedicated {
                    KeySet::Dedicated
                } else {
                    KeySet::GlobalUnicast
                },
                ..self
            }),
    {
        SecurityPolicy {
            key_set: if dedicated {
                KeySet::Dedicated
            } else {
                KeySet::GlobalUnicast
            },
            ..self
        }
    }

    /// The same protection on the broadcast key set, or back on the unicast one.
    ///
    /// For a receiver this says which key set it will *accept*; see
    /// [`SecurityPolicy::key_set`].
    #[must_use]
    #[verifier::allow_in_spec]
    pub fn with_broadcast(self, broadcast: bool) -> Self
        returns
            (SecurityPolicy {
                key_set: if broadcast {
                    KeySet::GlobalBroadcast
                } else {
                    KeySet::GlobalUnicast
                },
                ..self
            }),
    {
        SecurityPolicy {
            key_set: if broadcast {
                KeySet::GlobalBroadcast
            } else {
                KeySet::GlobalUnicast
            },
            ..self
        }
    }

    /// True when this association uses the key it negotiated for itself.
    #[must_use]
    #[verifier::allow_in_spec]
    pub fn dedicated(self) -> bool
        returns
            self.key_set.is_dedicated(),
    {
        self.key_set.is_dedicated()
    }

    /// True when this association uses the broadcast key set.
    #[must_use]
    #[verifier::allow_in_spec]
    pub fn broadcast(self) -> bool
        returns
            self.key_set.is_broadcast(),
    {
        self.key_set.is_broadcast()
    }

    /// Which key this policy's key set resolves to.
    #[must_use]
    #[verifier::allow_in_spec]
    pub fn key_usage(self) -> KeyUsage
        returns
            self.key_set.usage(),
    {
        self.key_set.usage()
    }

    /// The security control byte this policy produces.
    #[must_use]
    #[verifier::allow_in_spec]
    pub fn control(self) -> SecurityControl
        returns
            SecurityControl::new(
                self.suite.id(),
                self.authenticated,
                self.encrypted,
            ).with_broadcast(self.key_set.is_broadcast()),
    {
        SecurityControl::new(self.suite.id(), self.authenticated, self.encrypted).with_broadcast(
            self.key_set.is_broadcast(),
        )
    }

    /// True when nothing is applied.
    #[must_use]
    #[verifier::allow_in_spec]
    pub fn is_none(self) -> bool
        returns
            !self.authenticated && !self.encrypted,
    {
        !self.authenticated && !self.encrypted
    }

    /// Why a received control byte is refused, if it is: compression, a key set that was
    /// not asked for, or protection weaker than is demanded.
    pub open spec fn refusal(self, control: SecurityControl) -> Option<Error> {
        if control.compressed() {
            Some(Error { kind: ErrorKind::Unsupported, offset: 0 })
        } else if control.broadcast_key() != self.key_set.is_broadcast() {
            Some(Error { kind: ErrorKind::UnexpectedMessage, offset: 0 })
        } else if self.is_none() {
            None
        } else if control.suite() != self.suite.id() || (self.authenticated
            && !control.authenticated()) || (self.encrypted && !control.encrypted()) {
            Some(Error { kind: ErrorKind::UnexpectedMessage, offset: 0 })
        } else {
            None
        }
    }

    /// Check that a received security control byte is at least as strong as this
    /// policy demands.
    ///
    /// This is the downgrade check. A peer that stops encrypting, or drops to a weaker
    /// suite, is refused here rather than quietly accepted — which is the whole point
    /// of negotiating a policy in the first place.
    ///
    /// # Errors
    /// [`ErrorKind::UnexpectedMessage`] when the received protection is weaker, the
    /// suite differs, or the frame names a key set this policy did not ask for;
    /// [`ErrorKind::Unsupported`] when compression is claimed.
    pub fn check_received(self, control: SecurityControl) -> (r: Result<()>)
        ensures
            match r {
                Ok(_) => self.refusal(control) is None,
                Err(e) => self.refusal(control) == Some(e),
            },
    {
        if control.compressed() {
            return Err(Error::new(ErrorKind::Unsupported, 0));
        }
        // Checked ahead of the `is_none` shortcut, because this bit does not describe
        // how *strongly* a frame is protected — it decides which key opens it, and a
        // receiver must never take that from the sender.
        if control.broadcast_key() != self.key_set.is_broadcast() {
            return Err(Error::new(ErrorKind::UnexpectedMessage, 0));
        }
        if self.is_none() {
            return Ok(());
        }
        if control.suite() != self.suite.id() || (self.authenticated && !control.authenticated())
            || (self.encrypted && !control.encrypted()) {
            return Err(Error::new(ErrorKind::UnexpectedMessage, 0));
        }
        Ok(())
    }
}

/// A policy accepts what it sends, and the byte that it sends says what it applies.
pub proof fn law_own_control_is_accepted(p: SecurityPolicy)
    ensures
        p.refusal(p.control()) is None,
        p.control().suite() == p.suite.id(),
        p.control().authenticated() == p.authenticated,
        p.control().encrypted() == p.encrypted,
        p.control().broadcast_key() == p.key_set.is_broadcast(),
        !p.control().compressed(),
{
    law_control_fields(p.suite.id(), p.authenticated, p.encrypted, p.key_set.is_broadcast());
}

/// What a policy accepts is protected at least as strongly as it demands: by its own suite,
/// under the key set it names, and authenticated and encrypted where it says so.
pub proof fn law_no_downgrade(p: SecurityPolicy, control: SecurityControl)
    requires
        p.refusal(control) is None,
    ensures
        control.broadcast_key() == p.key_set.is_broadcast(),
        !p.is_none() ==> control.suite() == p.suite.id(),
        p.authenticated ==> control.authenticated(),
        p.encrypted ==> control.encrypted(),
        !control.compressed(),
{
}

/// The longest additional data of an encrypted APDU: the control byte and the longest key.
pub const AAD_MAX: usize = 33;

/// What an APDU becomes under a policy.
pub open spec fn protected_by<P: CryptoProvider>(
    p: &P,
    policy: SecurityPolicy,
    title: Seq<u8>,
    ic: u32,
    auth_key: Seq<u8>,
    plain: Seq<u8>,
) -> Result<Seq<u8>> {
    let key = KeyRefV::Usage(policy.key_usage());
    let iv = nonce_bytes(title, ic);
    let head = seq![policy.control().0] + auth_key;
    if policy.is_none() {
        Ok(plain)
    } else if policy.authenticated && policy.encrypted {
        if head.len() > AAD_MAX {
            Err(Error { kind: ErrorKind::Unsupported, offset: 0 })
        } else {
            match p.sealed(key, policy.suite, iv, head, plain) {
                Ok((data, tag)) => Ok(data + tag),
                Err(e) => Err(e),
            }
        }
    } else if policy.authenticated {
        match p.mac(key, policy.suite, iv, head + plain) {
            Ok(tag) => Ok(plain + tag),
            Err(e) => Err(e),
        }
    } else {
        match p.sealed(key, policy.suite, iv, Seq::empty(), plain) {
            Ok((data, _)) => Ok(data),
            Err(e) => Err(e),
        }
    }
}

/// What a protected payload opens to under a policy.
pub open spec fn unprotected_by<P: CryptoProvider>(
    p: &P,
    policy: SecurityPolicy,
    control: SecurityControl,
    title: Seq<u8>,
    ic: u32,
    auth_key: Seq<u8>,
    payload: Seq<u8>,
) -> Result<Seq<u8>> {
    let key = KeyRefV::Usage(policy.key_usage());
    let iv = nonce_bytes(title, ic);
    let head = seq![control.0] + auth_key;
    match policy.refusal(control) {
        Some(e) => Err(e),
        None => match suite_of(control.suite()) {
            Err(e) => Err(e),
            Ok(suite) => if control.is_plain() {
                Ok(payload)
            } else if !control.authenticated() {
                match p.sealed(key, suite, iv, Seq::empty(), payload) {
                    Ok((data, _)) => Ok(data),
                    Err(e) => Err(e),
                }
            } else if payload.len() < SecuritySuite::TAG_LEN {
                Err(Error { kind: ErrorKind::InvalidLength, offset: 0 })
            } else {
                let len = payload.len() - SecuritySuite::TAG_LEN;
                let data = payload.take(len);
                let tag = payload.skip(len);
                if control.encrypted() {
                    if head.len() > AAD_MAX {
                        Err(Error { kind: ErrorKind::Unsupported, offset: 0 })
                    } else {
                        p.opened(key, suite, iv, head, data, tag)
                    }
                } else {
                    match p.mac(key, suite, iv, head + data) {
                        Err(e) => Err(e),
                        Ok(expected) => if expected == tag {
                            Ok(data)
                        } else {
                            Err(Error { kind: ErrorKind::BadTag, offset: 0 })
                        },
                    }
                }
            },
        },
    }
}

/// The answer to a challenge: how it was computed, under which counter, and the tag.
pub open spec fn hls_reply_of<P: CryptoProvider>(
    p: &P,
    policy: SecurityPolicy,
    title: Seq<u8>,
    ic: u32,
    auth_key: Seq<u8>,
    challenge: Seq<u8>,
) -> Result<Seq<u8>> {
    let control = SecurityControl::new(policy.suite.id(), true, false);
    match p.mac(
        KeyRefV::Usage(KeyUsage::GlobalUnicastEncryption),
        policy.suite,
        nonce_bytes(title, ic),
        seq![control.0] + auth_key + challenge,
    ) {
        Ok(tag) => Ok(seq![control.0] + be_bytes(ic as nat, 4) + tag),
        Err(e) => Err(e),
    }
}

/// What an answer to a challenge is worth.
pub open spec fn hls_check_of<P: CryptoProvider>(
    p: &P,
    policy: SecurityPolicy,
    title: Seq<u8>,
    auth_key: Seq<u8>,
    challenge: Seq<u8>,
    response: Seq<u8>,
) -> Result<()> {
    let control = SecurityControl(response[0]);
    if response.len() != 17 {
        Err(Error { kind: ErrorKind::InvalidLength, offset: 0 })
    } else if !control.authenticated() || control.encrypted() || control.broadcast_key()
        || control.compressed() || control.suite() != policy.suite.id() {
        Err(Error { kind: ErrorKind::UnexpectedMessage, offset: 0 })
    } else {
        match p.mac(
            KeyRefV::Usage(KeyUsage::GlobalUnicastEncryption),
            policy.suite,
            nonce_bytes(title, be_nat(response.subrange(1, 5)) as u32),
            seq![control.0] + auth_key + challenge,
        ) {
            Err(e) => Err(e),
            Ok(expected) => if expected == response.skip(5) {
                Ok(())
            } else {
                Err(Error { kind: ErrorKind::BadTag, offset: 0 })
            },
        }
    }
}

/// The answer that a holder of the key gives to a challenge is accepted by another who
/// knows its title, whatever the policies' key sets.
pub proof fn law_hls_answer_is_accepted<P: CryptoProvider>(
    p: &P,
    mine: SecurityPolicy,
    theirs: SecurityPolicy,
    title: Seq<u8>,
    ic: u32,
    auth_key: Seq<u8>,
    challenge: Seq<u8>,
)
    requires
        mine.suite == theirs.suite,
    ensures
        hls_reply_of(p, mine, title, ic, auth_key, challenge) matches Ok(reply) ==> reply.len()
            == 17 ==> hls_check_of(p, theirs, title, auth_key, challenge, reply) == Ok::<
            (),
            Error,
        >(()),
{
    if let Ok(reply) = hls_reply_of(p, mine, title, ic, auth_key, challenge) {
        let control = SecurityControl::new(mine.suite.id(), true, false);
        law_control_fields(mine.suite.id(), true, false, false);
        let tag = reply.skip(5);
        lemma_be_bytes_len(ic as nat, 4);
        assert(reply.subrange(1, 5) =~= be_bytes(ic as nat, 4));
        lemma_pow256();
        lemma_be_roundtrip(ic as nat, 4);
        let made = p.mac(
            KeyRefV::Usage(KeyUsage::GlobalUnicastEncryption),
            mine.suite,
            nonce_bytes(title, ic),
            seq![control.0] + auth_key + challenge,
        )->Ok_0;
        assert(tag =~= made);
    }
}

/// Applies and removes protection for one association.
pub struct Protector<P> {
    provider: P,
    policy: SecurityPolicy,
}

/// Compare two byte strings without leaking where they differ, by
/// `subtle::ConstantTimeEq::ct_eq` on slices, which says whether they are equal.
#[verifier::external_body]
fn ct_eq(a: &[u8], b: &[u8]) -> (r: bool)
    ensures
        r == (a@ == b@),
{
    subtle::ConstantTimeEq::ct_eq(a, b).into()
}

/// Compare two byte strings without leaking where they differ.
#[must_use]
pub fn constant_time_eq(a: &[u8], b: &[u8]) -> (r: bool)
    ensures
        r == (a@ == b@),
{
    if a.len() != b.len() {
        return false;
    }
    ct_eq(a, b)
}

/// The control byte and the authentication key, as additional data.
fn build_aad(control: SecurityControl, auth_key: &[u8]) -> (r: Result<Vec<u8>>)
    ensures
        match r {
            Ok(v) => v@ == seq![control.0] + auth_key@ && v@.len() <= AAD_MAX,
            Err(e) => 1 + auth_key@.len() > AAD_MAX && e == (Error {
                kind: ErrorKind::Unsupported,
                offset: 0,
            }),
        },
{
    if auth_key.len() > Key::MAX_LEN {
        return Err(Error::new(ErrorKind::Unsupported, 0));
    }
    let mut v: Vec<u8> = Vec::new();
    v.push(control.0);
    extend(&mut v, auth_key);
    assert(v@ =~= seq![control.0] + auth_key@);
    Ok(v)
}

impl<P: CryptoProvider> Protector<P> {
    /// The provider.
    pub closed spec fn crypto(&self) -> P {
        self.provider
    }

    /// The policy in force for service APDUs.
    pub closed spec fn in_force(&self) -> SecurityPolicy {
        self.policy
    }

    /// A protector over `provider` applying `policy`.
    pub fn new(provider: P, policy: SecurityPolicy) -> (r: Self)
        ensures
            r.crypto() == provider,
            r.in_force() == policy,
    {
        Protector { provider, policy }
    }

    /// The policy in force for service APDUs.
    pub fn policy(&self) -> (r: SecurityPolicy)
        ensures
            r == self.in_force(),
    {
        self.policy
    }

    /// Switch service APDUs between the global and the dedicated key set.
    ///
    /// A server learns which to use from the `InitiateRequest` — a client that delivers
    /// a dedicated key expects `ded-` tagged APDUs back — so this cannot be settled at
    /// construction. Both ends must agree, or every APDU decrypts to noise and fails its
    /// tag.
    pub fn set_dedicated(&mut self, dedicated: bool)
        ensures
            final(self).crypto() == old(self).crypto(),
            final(self).in_force() == old(self).in_force().with_dedicated(dedicated),
    {
        self.policy = self.policy.with_dedicated(dedicated);
    }

    /// The provider, for operations that are not protection — challenges, key wrap.
    pub fn provider(&self) -> (r: &P)
        ensures
            *r == self.crypto(),
    {
        &self.provider
    }

    /// The provider, mutably — for installing the dedicated key of an association.
    pub fn provider_mut(&mut self) -> (r: &mut P)
        ensures
            *r == old(self).crypto(),
            final(self).crypto() == *final(r),
            final(self).in_force() == old(self).in_force(),
    {
        &mut self.provider
    }

    /// The authentication key's bytes, which every protected APDU authenticates.
    pub fn auth_key(&self) -> (r: Option<&[u8]>)
        ensures
            match r {
                Some(k) => self.crypto().auth_bytes() == Some(k@),
                None => self.crypto().auth_bytes() is None,
            },
    {
        self.provider.authentication_key()
    }

    /// The payload of `plaintext` under a policy.
    pub(crate) fn seal(
        &self,
        policy: SecurityPolicy,
        system_title: &SystemTitle,
        invocation_counter: u32,
        auth_key: &[u8],
        plaintext: &[u8],
    ) -> (r: Result<Vec<u8>>)
        ensures
            match r {
                Ok(v) => {
                    &&& protected_by(
                        &self.crypto(),
                        policy,
                        system_title@,
                        invocation_counter,
                        auth_key@,
                        plaintext@,
                    ) == Ok::<Seq<u8>, Error>(v@)
                    &&& unprotected_by(
                        &self.crypto(),
                        policy,
                        policy.control(),
                        system_title@,
                        invocation_counter,
                        auth_key@,
                        v@,
                    ) == Ok::<Seq<u8>, Error>(plaintext@)
                    &&& v@.len() == plaintext@.len() + (if policy.authenticated {
                        12int
                    } else {
                        0
                    })
                },
                Err(e) => protected_by(
                    &self.crypto(),
                    policy,
                    system_title@,
                    invocation_counter,
                    auth_key@,
                    plaintext@,
                ) == Err::<Seq<u8>, Error>(e),
            },
    {
        let control = policy.control();
        let iv = nonce(system_title, invocation_counter);
        let key = KeyRef::Usage(policy.key_usage());
        let ghost k = key@;
        proof {
            law_own_control_is_accepted(policy);
            law_suite_round_trip(policy.suite, 0);
        }
        let mut data: Vec<u8> = Vec::new();
        extend(&mut data, plaintext);
        assert(data@ =~= plaintext@);
        if policy.is_none() {
            return Ok(data);
        }
        if policy.authenticated && policy.encrypted {
            let aad = build_aad(control, auth_key)?;
            let tag = self.provider.aead_seal(
                key,
                policy.suite,
                &iv,
                aad.as_slice(),
                data.as_mut_slice(),
            )?;
            let ghost sealed = data@;
            extend(&mut data, tag.as_slice());
            proof {
                let n = data@.len() - 12;
                assert(data@.take(n) =~= sealed);
                assert(data@.skip(n) =~= tag@);
            }
        } else if policy.authenticated {
            // Authentication only: the plaintext travels in the clear and is
            // authenticated as additional data.
            let tag = self.gmac_with(policy, control, auth_key, &iv, plaintext)?;
            extend(&mut data, tag.as_slice());
            proof {
                let n = data@.len() - 12;
                assert(data@.take(n) =~= plaintext@);
                assert(data@.skip(n) =~= tag@);
            }
        } else {
            let nothing: [u8; 0] = [];
            assert(nothing@ =~= Seq::<u8>::empty());
            let _ = self.provider.aead_seal(
                key,
                policy.suite,
                &iv,
                nothing.as_slice(),
                data.as_mut_slice(),
            )?;
        }
        Ok(data)
    }

    /// Protect `plaintext` into `out`, returning the protected payload.
    ///
    /// The payload is what goes after the security control byte and invocation counter
    /// in a `glo-`/`ded-` APDU. `auth_key` is the authentication key's bytes, which are
    /// authenticated data rather than a cipher key. What is protected unprotects to what
    /// it was.
    ///
    /// # Errors
    /// When the buffer is too small, or the provider cannot find the key.
    pub fn protect<'o>(
        &self,
        system_title: &SystemTitle,
        invocation_counter: u32,
        auth_key: &[u8],
        plaintext: &[u8],
        out: &'o mut [u8],
    ) -> (r: Result<&'o [u8]>)
        ensures
            protect_outcome(
                &self.crypto(),
                self.in_force(),
                system_title@,
                invocation_counter,
                auth_key@,
                plaintext@,
                old(out)@,
                final(out)@,
                match r {
                    Ok(s) => Ok(s@),
                    Err(e) => Err(e),
                },
            ),
            r matches Ok(s) ==> unprotected_by(
                &self.crypto(),
                self.in_force(),
                self.in_force().control(),
                system_title@,
                invocation_counter,
                auth_key@,
                s@,
            ) == Ok::<Seq<u8>, Error>(plaintext@),
    {
        self.protect_as(self.policy, system_title, invocation_counter, auth_key, plaintext, out)
    }

    /// Protect under a policy other than this protector's — the Initiate exchange, which
    /// is global even in a dedicated association.
    ///
    /// # Errors
    /// As [`Protector::protect`].
    pub fn protect_as<'o>(
        &self,
        policy: SecurityPolicy,
        system_title: &SystemTitle,
        invocation_counter: u32,
        auth_key: &[u8],
        plaintext: &[u8],
        out: &'o mut [u8],
    ) -> (r: Result<&'o [u8]>)
        ensures
            protect_outcome(
                &self.crypto(),
                policy,
                system_title@,
                invocation_counter,
                auth_key@,
                plaintext@,
                old(out)@,
                final(out)@,
                match r {
                    Ok(s) => Ok(s@),
                    Err(e) => Err(e),
                },
            ),
            r matches Ok(s) ==> unprotected_by(
                &self.crypto(),
                policy,
                policy.control(),
                system_title@,
                invocation_counter,
                auth_key@,
                s@,
            ) == Ok::<Seq<u8>, Error>(plaintext@),
    {
        let extra: usize = if policy.authenticated {
            12
        } else {
            0
        };
        let room: usize = out.len();
        if room < extra || room - extra < plaintext.len() {
            let needed: usize = if policy.is_none() {
                plaintext.len()
            } else if room < extra {
                plaintext.len().saturating_add(extra - room)
            } else {
                plaintext.len() - (room - extra)
            };
            return Err(Error::new(ErrorKind::BufferTooSmall { needed }, 0));
        }
        let data = self.seal(policy, system_title, invocation_counter, auth_key, plaintext)?;
        copy_into(out, data.as_slice());
        let done: &[u8] = &*out;
        let s: &[u8] = vstd::slice::slice_subrange(done, 0, data.len());
        assert(s@ =~= data@);
        Ok(s)
    }

    /// What `payload` opens to under a policy.
    pub(crate) fn open(
        &self,
        policy: SecurityPolicy,
        control: SecurityControl,
        system_title: &SystemTitle,
        invocation_counter: u32,
        auth_key: &[u8],
        payload: &[u8],
    ) -> (r: Result<Vec<u8>>)
        ensures
            match r {
                Ok(v) => unprotected_by(
                    &self.crypto(),
                    policy,
                    control,
                    system_title@,
                    invocation_counter,
                    auth_key@,
                    payload@,
                ) == Ok::<Seq<u8>, Error>(v@) && v@.len() <= payload@.len(),
                Err(e) => unprotected_by(
                    &self.crypto(),
                    policy,
                    control,
                    system_title@,
                    invocation_counter,
                    auth_key@,
                    payload@,
                ) == Err::<Seq<u8>, Error>(e),
            },
    {
        policy.check_received(control)?;
        let iv = nonce(system_title, invocation_counter);
        let key = KeyRef::Usage(policy.key_usage());
        let ghost k = key@;
        let suite = SecuritySuite::from_id(control.suite())?;
        let mut data: Vec<u8> = Vec::new();

        if control.is_plain() {
            extend(&mut data, payload);
            assert(data@ =~= payload@);
            return Ok(data);
        }
        if !control.authenticated() {
            // GCM is counter mode: encrypting the ciphertext with the same nonce recovers
            // the plaintext. The tag the seal returns is discarded, which is exactly the
            // guarantee this mode does not offer.
            extend(&mut data, payload);
            assert(data@ =~= payload@);
            let nothing: [u8; 0] = [];
            assert(nothing@ =~= Seq::<u8>::empty());
            let _ = self.provider.aead_seal(
                key,
                suite,
                &iv,
                nothing.as_slice(),
                data.as_mut_slice(),
            )?;
            return Ok(data);
        }
        if payload.len() < SecuritySuite::TAG_LEN {
            return Err(Error::new(ErrorKind::InvalidLength, 0));
        }
        let len: usize = payload.len() - SecuritySuite::TAG_LEN;
        let body: &[u8] = vstd::slice::slice_subrange(payload, 0, len);
        let tail: &[u8] = vstd::slice::slice_subrange(payload, len, payload.len());
        let tag = to_array::<12>(tail);
        extend(&mut data, body);
        assert(data@ =~= payload@.take(len as int));
        assert(tag@ =~= payload@.skip(len as int));
        if control.encrypted() {
            let aad = build_aad(control, auth_key)?;
            self.provider.aead_open(key, suite, &iv, aad.as_slice(), data.as_mut_slice(), &tag)?;
        } else {
            let expected = self.gmac_with(policy, control, auth_key, &iv, body)?;
            if !constant_time_eq(expected.as_slice(), tag.as_slice()) {
                return Err(Error::new(ErrorKind::BadTag, 0));
            }
        }
        Ok(data)
    }

    /// Remove protection from `payload` in place, returning the plaintext.
    ///
    /// The tag is verified before any plaintext is returned.
    ///
    /// # Errors
    /// [`ErrorKind::BadTag`] when authentication fails;
    /// [`ErrorKind::UnexpectedMessage`] when the protection is weaker than the policy
    /// demands.
    pub fn unprotect<'o>(
        &self,
        control: SecurityControl,
        system_title: &SystemTitle,
        invocation_counter: u32,
        auth_key: &[u8],
        payload: &'o mut [u8],
    ) -> (r: Result<&'o [u8]>)
        ensures
            unprotected_by(
                &self.crypto(),
                self.in_force(),
                control,
                system_title@,
                invocation_counter,
                auth_key@,
                old(payload)@,
            ) == (match r {
                Ok(s) => Ok::<Seq<u8>, Error>(s@),
                Err(e) => Err(e),
            }),
            final(payload)@ == (match r {
                Ok(s) => s@ + old(payload)@.skip(s@.len() as int),
                Err(_) => old(payload)@,
            }),
    {
        self.unprotect_as(
            self.policy,
            control,
            system_title,
            invocation_counter,
            auth_key,
            payload,
        )
    }

    /// Remove protection under a policy other than this protector's.
    ///
    /// # Errors
    /// As [`Protector::unprotect`].
    pub fn unprotect_as<'o>(
        &self,
        policy: SecurityPolicy,
        control: SecurityControl,
        system_title: &SystemTitle,
        invocation_counter: u32,
        auth_key: &[u8],
        payload: &'o mut [u8],
    ) -> (r: Result<&'o [u8]>)
        ensures
            unprotected_by(
                &self.crypto(),
                policy,
                control,
                system_title@,
                invocation_counter,
                auth_key@,
                old(payload)@,
            ) == (match r {
                Ok(s) => Ok::<Seq<u8>, Error>(s@),
                Err(e) => Err(e),
            }),
            final(payload)@ == (match r {
                Ok(s) => s@ + old(payload)@.skip(s@.len() as int),
                Err(_) => old(payload)@,
            }),
    {
        let data = self.open(policy, control, system_title, invocation_counter, auth_key, payload)?;
        copy_into(payload, data.as_slice());
        let done: &[u8] = &*payload;
        let s: &[u8] = vstd::slice::slice_subrange(done, 0, data.len());
        assert(s@ =~= data@);
        Ok(s)
    }

    /// A GMAC over the security control byte, the authentication key and `data`.
    ///
    /// This is both the authentication-only protection tag and the HLS mechanism 5
    /// response, which is why it is one function.
    ///
    /// The three parts are handed to the provider as segments rather than joined, so
    /// `data` may be a whole APDU of any size.
    ///
    /// # Errors
    /// When the provider fails or the suite is not one it implements.
    pub fn gmac_over(
        &self,
        control: SecurityControl,
        auth_key: &[u8],
        iv: &[u8; 12],
        data: &[u8],
    ) -> (r: Result<[u8; 12]>)
        ensures
            gmac_outcome(
                &self.crypto(),
                self.in_force(),
                control,
                auth_key@,
                iv@,
                data@,
                match r {
                    Ok(t) => Ok(t@),
                    Err(e) => Err(e),
                },
            ),
    {
        self.gmac_with(self.policy, control, auth_key, iv, data)
    }

    fn gmac_with(
        &self,
        policy: SecurityPolicy,
        control: SecurityControl,
        auth_key: &[u8],
        iv: &[u8; 12],
        data: &[u8],
    ) -> (r: Result<[u8; 12]>)
        ensures
            gmac_outcome(
                &self.crypto(),
                policy,
                control,
                auth_key@,
                iv@,
                data@,
                match r {
                    Ok(t) => Ok(t@),
                    Err(e) => Err(e),
                },
            ),
    {
        let suite = SecuritySuite::from_id(control.suite())?;
        let key = KeyRef::Usage(policy.key_usage());
        let ghost k = key@;
        let head: [u8; 1] = [control.0];
        let segments: [&[u8]; 3] = [head.as_slice(), auth_key, data];
        proof {
            reveal_with_fuel(joined, 4);
            assert(head@ =~= seq![control.0]);
            let s = segments@;
            assert(s.drop_last().drop_last().drop_last() =~= Seq::<&[u8]>::empty());
            assert(joined(s) =~= seq![control.0] + auth_key@ + data@);
        }
        self.provider.gmac(key, suite, iv, segments.as_slice())
    }

    /// The HLS mechanism 5 response to a challenge.
    ///
    /// Writes `SC ‖ IC ‖ tag`, which is what goes into
    /// `reply_to_HLS_authentication`. The nonce uses the *responder's* own system title
    /// and counter, so each side's answer is bound to its own identity.
    ///
    /// # Errors
    /// When the provider fails.
    pub fn hls_gmac_response(
        &self,
        system_title: &SystemTitle,
        invocation_counter: u32,
        auth_key: &[u8],
        challenge: &[u8],
        out: &mut [u8; 17],
    ) -> (r: Result<()>)
        ensures
            match r {
                Ok(_) => hls_reply_of(
                    &self.crypto(),
                    self.in_force(),
                    system_title@,
                    invocation_counter,
                    auth_key@,
                    challenge@,
                ) == Ok::<Seq<u8>, Error>(final(out)@),
                Err(e) => hls_reply_of(
                    &self.crypto(),
                    self.in_force(),
                    system_title@,
                    invocation_counter,
                    auth_key@,
                    challenge@,
                ) == Err::<Seq<u8>, Error>(e) && final(out)@ == old(out)@,
            },
    {
        let control = SecurityControl::new(self.policy.suite.id(), true, false);
        proof {
            law_control_fields(self.policy.suite.id(), true, false, false);
            law_suite_round_trip(self.policy.suite, 0);
        }
        let iv = nonce(system_title, invocation_counter);
        // HLS runs before the association is open, so it is always the global key set:
        // a dedicated key delivered in the InitiateRequest is not yet in force.
        let tag = self.gmac_with(self.policy.global(), control, auth_key, &iv, challenge)?;
        let ic = be4(invocation_counter);
        *out =
        [
            control.0,
            ic[0],
            ic[1],
            ic[2],
            ic[3],
            tag[0],
            tag[1],
            tag[2],
            tag[3],
            tag[4],
            tag[5],
            tag[6],
            tag[7],
            tag[8],
            tag[9],
            tag[10],
            tag[11],
        ];
        assert(out@ =~= seq![control.0] + ic@ + tag@);
        Ok(())
    }

    /// Check the peer's HLS mechanism 5 response to a challenge we sent.
    ///
    /// # Errors
    /// [`ErrorKind::BadTag`] when the response does not match;
    /// [`ErrorKind::InvalidLength`] when it is not 17 bytes.
    pub fn verify_hls_gmac(
        &self,
        peer_title: &SystemTitle,
        auth_key: &[u8],
        challenge: &[u8],
        response: &[u8],
    ) -> (r: Result<()>)
        ensures
            r == hls_check_of(
                &self.crypto(),
                self.in_force(),
                peer_title@,
                auth_key@,
                challenge@,
                response@,
            ),
    {
        if response.len() != 17 {
            return Err(Error::new(ErrorKind::InvalidLength, 0));
        }
        let control = SecurityControl(response[0]);
        // The reply's own security control byte is the peer's claim about how it
        // computed the tag, and every field of it feeds the tag we are about to
        // recompute. A peer that names a different suite, or sets the encryption,
        // broadcast or compression bits, is not answering the challenge that was sent —
        // and verifying under whatever it claimed would let it choose the construction.
        if !control.authenticated() || control.encrypted() || control.broadcast_key()
            || control.compressed() || control.suite() != self.policy.suite.id() {
            return Err(Error::new(ErrorKind::UnexpectedMessage, 0));
        }
        proof {
            law_suite_round_trip(self.policy.suite, 0);
        }
        let counter: &[u8] = vstd::slice::slice_subrange(response, 1, 5);
        proof {
            crate::bytes::lemma_be_nat_bound(counter@);
            lemma_pow256();
        }
        let ic: u32 = crate::bytes::be_value(counter) as u32;
        let iv = nonce(peer_title, ic);
        let expected = self.gmac_with(self.policy.global(), control, auth_key, &iv, challenge)?;
        let given: &[u8] = vstd::slice::slice_subrange(response, 5, 17);
        assert(given@ =~= response@.skip(5));
        if constant_time_eq(expected.as_slice(), given) {
            Ok(())
        } else {
            Err(Error::new(ErrorKind::BadTag, 0))
        }
    }
}

/// What protecting into a buffer comes to: the payload at its start and the rest of it as
/// it was, or a refusal and the buffer as it was.
pub open spec fn protect_outcome<P: CryptoProvider>(
    p: &P,
    policy: SecurityPolicy,
    title: Seq<u8>,
    ic: u32,
    auth_key: Seq<u8>,
    plain: Seq<u8>,
    before: Seq<u8>,
    after: Seq<u8>,
    r: Result<Seq<u8>>,
) -> bool {
    let needed = plain.len() + (if policy.authenticated {
        12int
    } else {
        0
    });
    if before.len() < needed {
        &&& after == before
        &&& r == Err::<Seq<u8>, Error>(
            Error {
                kind: ErrorKind::BufferTooSmall {
                    needed: if policy.is_none() {
                        plain.len() as usize
                    } else {
                        clip(needed - before.len())
                    },
                },
                offset: 0,
            },
        )
    } else {
        &&& r == protected_by(p, policy, title, ic, auth_key, plain)
        &&& match r {
            Ok(s) => s.len() == needed && after == s + before.skip(s.len() as int),
            Err(_) => after == before,
        }
    }
}

/// What a GMAC over the control byte, the authentication key and data comes to.
pub open spec fn gmac_outcome<P: CryptoProvider>(
    p: &P,
    policy: SecurityPolicy,
    control: SecurityControl,
    auth_key: Seq<u8>,
    iv: Seq<u8>,
    data: Seq<u8>,
    r: Result<Seq<u8>>,
) -> bool {
    match suite_of(control.suite()) {
        Err(e) => r == Err::<Seq<u8>, Error>(e),
        Ok(suite) => r == p.mac(
            KeyRefV::Usage(policy.key_usage()),
            suite,
            iv,
            seq![control.0] + auth_key + data,
        ),
    }
}

} // verus!
