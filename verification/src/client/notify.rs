//! The notification listener: decoding pushed data.
//!
//! A meter's customer interface emits a `DataNotification` on its own initiative,
//! usually ciphered under a key the customer holds. There is no association, no
//! handshake and nothing to correlate: the frame arrives, and the only thing that says
//! which key opens it is the system title inside it.
//!
//! This is the shape of the Austrian, Luxembourg and Dutch customer interfaces, and it
//! is the reason the listener exists separately from [`super::ClientSession`].

use vstd::prelude::*;

use crate::axdr::data::Data;
use crate::axdr::datetime::DateTime;
use crate::bytes::copy_into;
use crate::codec::{extend, Decode, Error, ErrorKind, Reader, Result};
use crate::security::counter::ReplayWindow;
use crate::security::keys::{KeyRef, KeyRing, KeyUsage, SystemTitle};
use crate::security::protect::{Protector, SecurityPolicy};
use crate::security::{CryptoProvider, SecuritySuite};
use crate::xdlms::apdu::Apdu;
use crate::xdlms::ciphering::{CipheredService, GeneralGloCiphering};
use crate::xdlms::service::DataNotification;
use crate::xdlms::tag::ApduTag;
#[allow(unused_imports)]
use crate::axdr::data::DataV;
#[allow(unused_imports)]
use crate::codec::{whole, Cursor};
#[allow(unused_imports)]
use crate::security::counter::WindowV;
#[allow(unused_imports)]
use crate::security::keys::KeyRefV;
#[allow(unused_imports)]
use crate::security::protect::unprotected_by;
#[allow(unused_imports)]
use crate::security::rustcrypto::unsupported;
#[allow(unused_imports)]
use crate::security::suite_of;
#[allow(unused_imports)]
use crate::security::wrap::{first_byte, title_view, unexpected};
#[allow(unused_imports)]
use crate::xdlms::apdu::ApduV;
#[allow(unused_imports)]
use crate::xdlms::ciphering::{CipheredServiceV, GeneralGloCipheringV};
#[allow(unused_imports)]
use crate::xdlms::service::DataNotificationV;
#[allow(unused_imports)]
use crate::xdlms::tag::tag_of;

verus! {

/// Finds the keys for a meter, by its system title.
///
/// A listener in front of a single meter answers from one key ring; a head-end answers
/// from a database. Returning `None` is how an unknown meter is ignored rather than
/// treated as an error.
pub trait PushKeyLookup: Sized {
    /// The keys that are known of a meter.
    spec fn known(&self, title: Seq<u8>) -> Option<KeyRing>;

    /// Which counters of a meter are spent.
    spec fn window(&self, title: Seq<u8>) -> Option<WindowV>;

    /// The keys for this meter, if any are known.
    fn keys_for(&self, system_title: &SystemTitle) -> (r: Option<&KeyRing>)
        ensures
            match r {
                Some(k) => self.known(system_title@) == Some(*k),
                None => self.known(system_title@) is None,
            },
    ;

    /// The replay window for this meter.
    ///
    /// There is deliberately no default. A push frame carries no handshake and nothing
    /// to correlate, so the invocation counter is the *only* thing standing between a
    /// listener and a recorded frame replayed a year later; an implementation that
    /// forgets to keep one should not compile.
    ///
    /// Returning `None` for a meter whose keys are known means "accept nothing from it".
    fn replay_window(&mut self, system_title: &SystemTitle) -> (r: Option<&mut ReplayWindow>)
        ensures
            forall|t: Seq<u8>| final(self).known(t) == old(self).known(t),
            forall|t: Seq<u8>|
                t != system_title@ ==> final(self).window(t) == old(self).window(t),
            match r {
                Some(w) => old(self).window(system_title@) == Some((*w)@) && final(self).window(
                    system_title@,
                ) == Some((*final(w))@),
                None => old(self).window(system_title@) is None && final(self).window(
                    system_title@,
                ) is None,
            },
    ;
}

/// A key ring and replay window for exactly one meter.
#[derive(Clone)]
pub struct SingleMeterKeys {
    /// Which meter.
    pub system_title: SystemTitle,
    /// Its keys.
    pub keys: KeyRing,
    /// Which counters have already been accepted from it. Persist
    /// [`ReplayWindow::highest`] and restore with [`ReplayWindow::resumed`], or a
    /// listener that restarts will accept every frame it has ever seen a second time.
    pub replay: ReplayWindow,
}

impl SingleMeterKeys {
    /// A lookup for one meter, accepting only strictly increasing counters.
    #[must_use]
    pub fn new(system_title: SystemTitle, keys: KeyRing) -> (r: Self)
        ensures
            r.system_title == system_title,
            r.keys == keys,
            r.replay@ == (WindowV { highest: None, width: 0, seen: Set::empty() }),
    {
        SingleMeterKeys { system_title, keys, replay: ReplayWindow::strict() }
    }
}

impl PushKeyLookup for SingleMeterKeys {
    open spec fn known(&self, title: Seq<u8>) -> Option<KeyRing> {
        if title == self.system_title@ {
            Some(self.keys)
        } else {
            None
        }
    }

    open spec fn window(&self, title: Seq<u8>) -> Option<WindowV> {
        if title == self.system_title@ {
            Some(self.replay@)
        } else {
            None
        }
    }

    fn keys_for(&self, system_title: &SystemTitle) -> (r: Option<&KeyRing>) {
        if *system_title == self.system_title {
            Some(&self.keys)
        } else {
            None
        }
    }

    fn replay_window(&mut self, system_title: &SystemTitle) -> (r: Option<&mut ReplayWindow>) {
        if *system_title == self.system_title {
            Some(&mut self.replay)
        } else {
            None
        }
    }
}

/// A provider that answers key lookups from a ring supplied per message.
///
/// The listener holds one provider but many meters' keys, so the ring travels with the
/// message rather than living in the provider.
pub struct ProviderWithKeys<'p, P> {
    /// What computes.
    pub inner: &'p P,
    /// The keys it computes with.
    pub keys: &'p KeyRing,
}

impl<'p, P> ProviderWithKeys<'p, P> {
    /// The key a reference stands for, where the ring has it.
    pub open spec fn resolved(&self, key: KeyRefV) -> Option<KeyRefV> {
        match key {
            KeyRefV::Raw(_) => Some(key),
            KeyRefV::Usage(u) => if self.keys@.dom().contains(u) {
                Some(KeyRefV::Raw(self.keys@[u]))
            } else {
                None
            },
        }
    }

    fn resolve<'k>(&'k self, key: KeyRef<'k>) -> (r: Result<KeyRef<'k>>)
        ensures
            match r {
                Ok(k) => self.resolved(key@) == Some(k@),
                Err(e) => self.resolved(key@) is None && e == unsupported(),
            },
    {
        match key {
            KeyRef::Raw(_) => Ok(key),
            KeyRef::Usage(u) => match self.keys.get(u) {
                Some(k) => Ok(KeyRef::Raw(k)),
                None => Err(Error::new(ErrorKind::Unsupported, 0)),
            },
        }
    }
}

impl<'p, P: CryptoProvider> CryptoProvider for ProviderWithKeys<'p, P> {
    open spec fn sealed(
        &self,
        key: KeyRefV,
        suite: SecuritySuite,
        nonce: Seq<u8>,
        aad: Seq<u8>,
        plain: Seq<u8>,
    ) -> Result<(Seq<u8>, Seq<u8>)> {
        match self.resolved(key) {
            Some(k) => self.inner.sealed(k, suite, nonce, aad, plain),
            None => Err(unsupported()),
        }
    }

    open spec fn opened(
        &self,
        key: KeyRefV,
        suite: SecuritySuite,
        nonce: Seq<u8>,
        aad: Seq<u8>,
        data: Seq<u8>,
        tag: Seq<u8>,
    ) -> Result<Seq<u8>> {
        match self.resolved(key) {
            Some(k) => self.inner.opened(k, suite, nonce, aad, data, tag),
            None => Err(unsupported()),
        }
    }

    open spec fn mac(
        &self,
        key: KeyRefV,
        suite: SecuritySuite,
        nonce: Seq<u8>,
        aad: Seq<u8>,
    ) -> Result<Seq<u8>> {
        match self.resolved(key) {
            Some(k) => self.inner.mac(k, suite, nonce, aad),
            None => Err(unsupported()),
        }
    }

    open spec fn auth_bytes(&self) -> Option<Seq<u8>> {
        held(*self.keys, KeyUsage::Authentication)
    }

    open spec fn dedicated_bytes(&self) -> Option<Seq<u8>> {
        held(*self.keys, KeyUsage::Dedicated)
    }

    fn aead_seal(
        &self,
        key: KeyRef<'_>,
        suite: SecuritySuite,
        nonce: &[u8; 12],
        aad: &[u8],
        buf: &mut [u8],
    ) -> (r: Result<[u8; 12]>) {
        let k = self.resolve(key)?;
        self.inner.aead_seal(k, suite, nonce, aad, buf)
    }

    fn aead_open(
        &self,
        key: KeyRef<'_>,
        suite: SecuritySuite,
        nonce: &[u8; 12],
        aad: &[u8],
        buf: &mut [u8],
        tag: &[u8; 12],
    ) -> (r: Result<()>) {
        let k = self.resolve(key)?;
        self.inner.aead_open(k, suite, nonce, aad, buf, tag)
    }

    fn gmac(
        &self,
        key: KeyRef<'_>,
        suite: SecuritySuite,
        nonce: &[u8; 12],
        aad: &[&[u8]],
    ) -> (r: Result<[u8; 12]>) {
        let k = self.resolve(key)?;
        self.inner.gmac(k, suite, nonce, aad)
    }

    fn random(&self, out: &mut [u8]) -> (r: Result<()>)
        ensures
            exists|m: &mut [u8]|
                #![trigger call_ensures(P::random, (self.inner, m), r)]
                m@ == old(out)@ && final(m)@ == final(out)@ && call_ensures(
                    P::random,
                    (self.inner, m),
                    r,
                ),
    {
        self.inner.random(out)
    }

    fn authentication_key(&self) -> (r: Option<&[u8]>) {
        self.keys.get(KeyUsage::Authentication)
    }

    fn dedicated_key(&self) -> (r: Option<&[u8]>) {
        self.keys.get(KeyUsage::Dedicated)
    }
}

/// The key that a ring holds for a use, if it holds one.
pub open spec fn held(keys: KeyRing, usage: KeyUsage) -> Option<Seq<u8>> {
    if keys@.dom().contains(usage) {
        Some(keys@[usage])
    } else {
        None
    }
}

/// What a notification carried.
#[verifier::ext_equal]
pub struct ReceivedV {
    /// Which meter sent it, when the frame said.
    pub system_title: Option<Seq<u8>>,
    /// The counter it was sent under.
    pub invocation_counter: Option<u32>,
    /// When the values were captured.
    pub captured_at: Option<DateTime>,
    /// The values.
    pub body: DataV,
}

/// What a notification carried.
#[derive(Debug, Clone, Copy, PartialEq)]
pub struct ReceivedNotification<'a> {
    /// Which meter sent it, when the frame said.
    pub system_title: Option<SystemTitle>,
    /// The counter it was sent under, for a protected notification.
    pub invocation_counter: Option<u32>,
    /// When the values were captured, if the meter said.
    pub captured_at: Option<DateTime>,
    /// The values — for a push setup with several objects, a structure with one field
    /// per object in the push object list.
    pub body: Data<'a>,
}

impl<'a> View for ReceivedNotification<'a> {
    type V = ReceivedV;

    open spec fn view(&self) -> ReceivedV {
        ReceivedV {
            system_title: title_view(self.system_title),
            invocation_counter: self.invocation_counter,
            captured_at: self.captured_at,
            body: self.body@,
        }
    }
}

/// What a frame is before anything is opened: who sent it, where that is known, and what is
/// ciphered in it, where something is.
#[verifier::ext_equal]
pub struct PushV {
    /// Whether the tag names the dedicated key set.
    pub dedicated: bool,
    /// The sender's title.
    pub title: Option<Seq<u8>>,
    /// What is ciphered.
    pub ciphered: Option<CipheredServiceV>,
}

/// Taking a frame apart. A frame that carries a title is its own witness; for one that does
/// not, the link's `sender` is.
pub open spec fn pushed(apdu: Seq<u8>, sender: Option<Seq<u8>>) -> Result<PushV> {
    let rest = Cursor::start(apdu).adv(1);
    match tag_of(first_byte(apdu)) {
        None => Err(Error { kind: ErrorKind::InvalidTag(first_byte(apdu)), offset: 0 }),
        Some(tag) => if apdu.len() == 0 {
            Err(Error { kind: ErrorKind::Truncated { needed: 1 }, offset: 0 })
        } else {
            match tag {
                ApduTag::DataNotification => Ok(
                    PushV { dedicated: false, title: None, ciphered: None },
                ),
                ApduTag::GeneralGloCiphering
                | ApduTag::GeneralDedCiphering => match GeneralGloCipheringV::p(rest) {
                    Err(e) => Err(e),
                    Ok((g, _)) => if g.system_title.len() != 8 {
                        Err(Error { kind: ErrorKind::InvalidLength, offset: 0 })
                    } else {
                        Ok(
                            PushV {
                                dedicated: tag is GeneralDedCiphering,
                                title: Some(g.system_title),
                                ciphered: Some(g.ciphered),
                            },
                        )
                    },
                },
                ApduTag::GloEventNotification
                | ApduTag::DedEventNotification => match CipheredServiceV::p(rest) {
                    Err(e) => Err(e),
                    Ok((c, _)) => Ok(
                        PushV {
                            dedicated: tag is DedEventNotification,
                            title: sender,
                            ciphered: Some(c),
                        },
                    ),
                },
                _ => Err(unexpected()),
            }
        },
    }
}

/// The policy a frame is opened under: what was demanded, in the frame's suite. The tag
/// names the dedicated key set; the broadcast one is the listener's to demand.
pub open spec fn opening_policy(
    required: SecurityPolicy,
    suite: SecuritySuite,
    dedicated: bool,
) -> SecurityPolicy {
    let policy = SecurityPolicy { suite, ..required };
    if !dedicated && required.broadcast() {
        policy
    } else {
        policy.with_dedicated(dedicated)
    }
}

/// Why a ciphered frame is not even tried, if it is not: it is protected more weakly than
/// was demanded, its sender is not known, or its counter is spent.
pub open spec fn not_tried(
    required: SecurityPolicy,
    title: Option<Seq<u8>>,
    keys: Option<KeyRing>,
    window: Option<WindowV>,
    c: CipheredServiceV,
    room: nat,
) -> Option<Error> {
    if required.refusal(c.security_control) is Some {
        required.refusal(c.security_control)
    } else if title is None || keys is None || held(keys->0, KeyUsage::Authentication) is None
        || window is None {
        Some(unsupported())
    } else if !window->0.admits(c.invocation_counter) {
        Some(Error { kind: ErrorKind::BadTag, offset: 0 })
    } else if c.payload.len() > room {
        Some(
            Error {
                kind: ErrorKind::BufferTooSmall { needed: c.payload.len() as usize },
                offset: 0,
            },
        )
    } else {
        None
    }
}

/// What a ciphered frame opens to, and which counters are spent afterwards: only one that
/// opens spends its counter.
pub open spec fn push_opened<P: CryptoProvider>(
    p: &P,
    required: SecurityPolicy,
    dedicated: bool,
    title: Option<Seq<u8>>,
    keys: Option<KeyRing>,
    window: Option<WindowV>,
    c: CipheredServiceV,
    room: nat,
) -> (Result<Seq<u8>>, Option<WindowV>) {
    match not_tried(required, title, keys, window, c, room) {
        Some(e) => (Err(e), window),
        None => match suite_of(c.security_control.suite()) {
            Err(e) => (Err(e), window),
            Ok(suite) => match unprotected_by(
                &ProviderWithKeys { inner: p, keys: &keys->0 },
                opening_policy(required, suite, dedicated),
                c.security_control,
                title->0,
                c.invocation_counter,
                held(keys->0, KeyUsage::Authentication)->0,
                c.payload,
            ) {
                Err(e) => (Err(e), window),
                Ok(plain) => (Ok(plain), Some(window->0.with(c.invocation_counter))),
            },
        },
    }
}

/// The notification in a plain message. What was ciphered starts at the service tag.
pub open spec fn notified(plain: Seq<u8>) -> Result<DataNotificationV> {
    if plain.len() == 0 {
        Err(Error { kind: ErrorKind::Truncated { needed: 1 }, offset: 0 })
    } else if tag_of(plain[0]) == Some(ApduTag::DataNotification) {
        match whole(ApduV::p(Cursor::start(plain))) {
            Err(e) => Err(e),
            Ok(ApduV::DataNotification(n)) => Ok(n),
            Ok(_) => Err(unexpected()),
        }
    } else {
        match DataNotificationV::p(Cursor::start(plain)) {
            Err(e) => Err(e),
            Ok((n, _)) => Ok(n),
        }
    }
}

/// Everything a frame comes to: what was received, and which counters of its sender are
/// spent afterwards, where it has one that is looked up.
pub open spec fn heard<P: CryptoProvider, L: PushKeyLookup>(
    p: &P,
    lookup: &L,
    required: SecurityPolicy,
    apdu: Seq<u8>,
    sender: Option<Seq<u8>>,
    room: nat,
) -> (Result<ReceivedV>, Option<WindowV>) {
    match pushed(apdu, sender) {
        Err(e) => (Err(e), None),
        Ok(push) => match push.ciphered {
            None => if !required.is_none() {
                (Err(unexpected()), None)
            } else if apdu.len() - 1 > room {
                (
                    Err(
                        Error {
                            kind: ErrorKind::BufferTooSmall { needed: (apdu.len() - 1) as usize },
                            offset: 0,
                        },
                    ),
                    None,
                )
            } else {
                (received(push, notified(apdu.skip(1))), None)
            },
            Some(c) => {
                let (opened, window) = push_opened(
                    p,
                    required,
                    push.dedicated,
                    push.title,
                    match push.title {
                        Some(t) => lookup.known(t),
                        None => None,
                    },
                    match push.title {
                        Some(t) => lookup.window(t),
                        None => None,
                    },
                    c,
                    room,
                );
                match opened {
                    Err(e) => (Err(e), window),
                    Ok(plain) => (received(push, notified(plain)), window),
                }
            },
        },
    }
}

/// What is reported of a notification.
pub open spec fn received(push: PushV, n: Result<DataNotificationV>) -> Result<ReceivedV> {
    match n {
        Err(e) => Err(e),
        Ok(n) => Ok(
            ReceivedV {
                system_title: push.title,
                invocation_counter: match push.ciphered {
                    Some(c) => Some(c.invocation_counter),
                    None => None,
                },
                captured_at: n.date_time.0,
                body: n.body,
            },
        ),
    }
}

/// The sender whose window a frame can move, if there is one.
pub open spec fn moved(apdu: Seq<u8>, sender: Option<Seq<u8>>) -> Option<Seq<u8>> {
    match pushed(apdu, sender) {
        Ok(push) => if push.ciphered is Some {
            push.title
        } else {
            None
        },
        Err(_) => None,
    }
}

/// The notification in a plain message.
fn notification<'b>(plain: &'b [u8]) -> (r: Result<DataNotification<'b>>)
    ensures
        match r {
            Ok(n) => notified(plain@) == Ok::<DataNotificationV, Error>(n@),
            Err(e) => notified(plain@) == Err::<DataNotificationV, Error>(e),
        },
{
    // A ciphered notification's plaintext starts at the service tag.
    let mut r = Reader::new(plain);
    let inner_tag = r.peek_u8()?;
    let inner = ApduTag::from_u8(inner_tag);
    if matches!(inner, Some(ApduTag::DataNotification)) {
        assert(Apdu::parse(Cursor::start(plain@)) == ApduV::p(Cursor::start(plain@)));
        match Apdu::from_bytes(plain)? {
            Apdu::DataNotification(n) => Ok(n),
            _ => Err(Error::new(ErrorKind::UnexpectedMessage, 0)),
        }
    } else {
        assert(DataNotification::parse(r@) == DataNotificationV::p(r@));
        DataNotification::decode(&mut r)
    }
}

/// What a frame is before anything is opened.
struct Push<'a> {
    dedicated: bool,
    title: Option<SystemTitle>,
    ciphered: Option<CipheredService<'a>>,
}

impl<'a> View for Push<'a> {
    type V = PushV;

    closed spec fn view(&self) -> PushV {
        PushV {
            dedicated: self.dedicated,
            title: title_view(self.title),
            ciphered: match self.ciphered {
                Some(c) => Some(c@),
                None => None,
            },
        }
    }
}

/// Take a frame apart.
fn take_apart<'a>(apdu: &'a [u8], sender: Option<SystemTitle>) -> (r: Result<Push<'a>>)
    ensures
        match r {
            Ok(p) => pushed(apdu@, title_view(sender)) == Ok::<PushV, Error>(p@),
            Err(e) => pushed(apdu@, title_view(sender)) == Err::<PushV, Error>(e),
        },
{
    let tag_byte: u8 = if apdu.len() > 0 {
        apdu[0]
    } else {
        0
    };
    let tag = match ApduTag::from_u8(tag_byte) {
        Some(t) => t,
        None => {
            return Err(Error::new(ErrorKind::InvalidTag(tag_byte), 0));
        },
    };
    let mut r = Reader::new(apdu);
    r.skip(1)?;
    assert(r@ == Cursor::start(apdu@).adv(1));
    match tag {
        ApduTag::DataNotification => Ok(Push { dedicated: false, title: None, ciphered: None }),
        ApduTag::GeneralGloCiphering | ApduTag::GeneralDedCiphering => {
            assert(GeneralGloCiphering::parse(r@) == GeneralGloCipheringV::p(r@));
            let g = GeneralGloCiphering::decode(&mut r)?;
            let title = SystemTitle::from_slice(g.system_title)?;
            Ok(
                Push {
                    dedicated: matches!(tag, ApduTag::GeneralDedCiphering),
                    title: Some(title),
                    ciphered: Some(g.ciphered),
                },
            )
        },
        ApduTag::GloEventNotification | ApduTag::DedEventNotification => {
            // A ciphered notification with no system title of its own. Only
            // `handle_from` can decode one, because only the caller knows which
            // meter the link belongs to.
            assert(CipheredService::parse(r@) == CipheredServiceV::p(r@));
            let c = CipheredService::decode(&mut r)?;
            Ok(
                Push {
                    dedicated: matches!(tag, ApduTag::DedEventNotification),
                    title: sender,
                    ciphered: Some(c),
                },
            )
        },
        _ => Err(Error::new(ErrorKind::UnexpectedMessage, 0)),
    }
}

/// Decodes pushed notifications.
///
/// The listener is told up front what protection it *requires*, and that is the point.
/// A push frame is unsolicited: there is no association to have negotiated anything, so
/// the only statement about how a frame should have been protected is the one the
/// caller makes here. A listener that instead read the protection out of the frame it
/// was handed would authenticate exactly as much as the sender felt like — which for a
/// forged frame is nothing at all.
pub struct NotificationListener<P, L> {
    provider: P,
    lookup: L,
    required: SecurityPolicy,
}

impl<P: CryptoProvider, L: PushKeyLookup> NotificationListener<P, L> {
    /// What computes.
    pub closed spec fn crypto(&self) -> P {
        self.provider
    }

    /// What finds the keys.
    pub closed spec fn meters(&self) -> L {
        self.lookup
    }

    /// What is demanded.
    pub closed spec fn demanded(&self) -> SecurityPolicy {
        self.required
    }

    /// A listener over `provider` that finds keys with `lookup` and refuses any
    /// notification protected more weakly than `required`.
    ///
    /// Pass [`SecurityPolicy::authenticated_encrypted`] for the ordinary customer
    /// interface. [`SecurityPolicy::NONE`] accepts anything, including a completely
    /// unauthenticated frame, and is for decoding a capture rather than for trusting
    /// what arrives.
    ///
    /// A meter that pushes under the **broadcast** key set needs
    /// [`SecurityPolicy::with_broadcast`] here: which key set opens a frame is something
    /// the listener demands, not something it reads out of the frame's own header.
    pub fn new(provider: P, lookup: L, required: SecurityPolicy) -> (r: Self)
        ensures
            r.crypto() == provider,
            r.meters() == lookup,
            r.demanded() == required,
    {
        NotificationListener { provider, lookup, required }
    }

    /// What this listener demands of a notification.
    #[must_use]
    pub fn required(&self) -> (r: SecurityPolicy)
        ensures
            r == self.demanded(),
    {
        self.required
    }

    /// The key lookup, mutably — for adding meters, or persisting replay windows.
    pub fn lookup_mut(&mut self) -> (r: &mut L)
        ensures
            *r == old(self).meters(),
            final(self).meters() == *final(r),
            final(self).crypto() == old(self).crypto(),
            final(self).demanded() == old(self).demanded(),
    {
        &mut self.lookup
    }

    /// Decode one notification APDU.
    ///
    /// `buf` receives the deciphered APDU and the result borrows from it.
    ///
    /// # Errors
    /// [`ErrorKind::BadTag`] when the tag does not verify or the counter is a replay;
    /// [`ErrorKind::Unsupported`] when no key is known for the sender.
    pub fn handle<'b>(&mut self, apdu: &[u8], buf: &'b mut [u8]) -> (r: Result<
        ReceivedNotification<'b>,
    >)
        ensures
            old(self).hears(apdu@, None, old(buf)@.len(), final(self), match r {
                Ok(n) => Ok(n@),
                Err(e) => Err(e),
            }),
            final(buf)@.len() == old(buf)@.len(),
    {
        self.handle_inner(apdu, None, buf)
    }

    /// Decode one notification that arrived on a link whose peer is already known.
    ///
    /// `glo-event-notification` and `ded-event-notification` carry no system title of
    /// their own — they are sent inside an association, or over a link that serves one
    /// meter — so there is nothing in the frame to look a key up by. This is how the
    /// caller supplies the identity the frame omits. For `general-glo-ciphering`, which
    /// does carry a title, the frame's own title wins and `sender` is ignored.
    ///
    /// # Errors
    /// As [`NotificationListener::handle`].
    pub fn handle_from<'b>(
        &mut self,
        sender: SystemTitle,
        apdu: &[u8],
        buf: &'b mut [u8],
    ) -> (r: Result<ReceivedNotification<'b>>)
        ensures
            old(self).hears(apdu@, Some(sender@), old(buf)@.len(), final(self), match r {
                Ok(n) => Ok(n@),
                Err(e) => Err(e),
            }),
            final(buf)@.len() == old(buf)@.len(),
    {
        self.handle_inner(apdu, Some(sender), buf)
    }

    /// What a frame comes to, and what it does to the listener: at most the window of its
    /// sender moves.
    pub open spec fn hears(
        &self,
        apdu: Seq<u8>,
        sender: Option<Seq<u8>>,
        room: nat,
        then: &Self,
        r: Result<ReceivedV>,
    ) -> bool {
        let (outcome, window) = heard(
            &self.crypto(),
            &self.meters(),
            self.demanded(),
            apdu,
            sender,
            room,
        );
        &&& r == outcome
        &&& then.crypto() == self.crypto()
        &&& then.demanded() == self.demanded()
        &&& forall|t: Seq<u8>| then.meters().known(t) == self.meters().known(t)
        &&& forall|t: Seq<u8>|
            then.meters().window(t) == (if moved(apdu, sender) == Some(t) {
                window
            } else {
                self.meters().window(t)
            })
    }

    /// Open what is ciphered in a frame.
    fn open(&mut self, push: &Push<'_>, c: &CipheredService<'_>, room: usize) -> (r: Result<
        Vec<u8>,
    >)
        ensures
            ({
                let known = match push@.title {
                    Some(t) => old(self).meters().known(t),
                    None => None,
                };
                let window = match push@.title {
                    Some(t) => old(self).meters().window(t),
                    None => None,
                };
                let (opened, after) = push_opened(
                    &old(self).crypto(),
                    old(self).demanded(),
                    push@.dedicated,
                    push@.title,
                    known,
                    window,
                    c@,
                    room as nat,
                );
                &&& match r {
                    Ok(v) => opened == Ok::<Seq<u8>, Error>(v@) && v@.len() <= room,
                    Err(e) => opened == Err::<Seq<u8>, Error>(e),
                }
                &&& final(self).crypto() == old(self).crypto()
                &&& final(self).demanded() == old(self).demanded()
                &&& forall|t: Seq<u8>|
                    final(self).meters().known(t) == old(self).meters().known(t)
                &&& forall|t: Seq<u8>|
                    final(self).meters().window(t) == (if push@.title == Some(t) {
                        after
                    } else {
                        old(self).meters().window(t)
                    })
            }),
    {
        // The protection the frame claims must be at least what was demanded,
        // checked before a key is touched.
        self.required.check_received(c.security_control)?;
        let title = match push.title {
            Some(t) => t,
            None => {
                return Err(Error::new(ErrorKind::Unsupported, 0));
            },
        };
        // The whole ring is looked up, not two keys out of it: a `general-ded-`
        // frame is opened with the dedicated key and a broadcast one with the
        // GBEK, and a listener that only ever took the unicast key would fail
        // those with `Unsupported` rather than with anything a caller can act on.
        // Which of the three it is comes from the tag and from the policy the
        // caller stated, never from the frame's broadcast bit.
        match self.lookup.keys_for(&title) {
            None => {
                return Err(Error::new(ErrorKind::Unsupported, 0));
            },
            Some(k) => {
                if k.get(KeyUsage::Authentication).is_none() {
                    return Err(Error::new(ErrorKind::Unsupported, 0));
                }
            },
        }
        // Reject an obvious replay before doing any cryptography, but record
        // nothing yet: a forged frame that advanced the window would lock the
        // real meter out for good.
        match self.lookup.replay_window(&title) {
            None => {
                return Err(Error::new(ErrorKind::Unsupported, 0));
            },
            Some(w) => {
                w.check(c.invocation_counter)?;
            },
        }
        if c.payload.len() > room {
            return Err(Error::new(ErrorKind::BufferTooSmall { needed: c.payload.len() }, 0));
        }
        // Unprotect under the policy that was *demanded*, not the one the frame
        // announced, so a downgraded frame fails here rather than sailing past.
        // The one thing the frame does decide is the *dedicated* key set, which
        // its tag names rather than a bit inside the protected header; the
        // broadcast key set is the caller's to demand, and `check_received` has
        // already refused a frame that disagrees with it.

        let suite = SecuritySuite::from_id(c.security_control.suite())?;
        let mut policy = self.required;
        policy.suite = suite;
        if push.dedicated || !self.required.broadcast() {
            policy = policy.with_dedicated(push.dedicated);
        }
        assert(policy == opening_policy(self.required, suite, push.dedicated));
        let plain = match self.lookup.keys_for(&title) {
            None => {
                return Err(Error::new(ErrorKind::Unsupported, 0));
            },
            Some(keys) => {
                let auth_key = match keys.get(KeyUsage::Authentication) {
                    Some(k) => k,
                    None => {
                        return Err(Error::new(ErrorKind::Unsupported, 0));
                    },
                };
                let protector = Protector::new(
                    ProviderWithKeys { inner: &self.provider, keys },
                    policy,
                );
                protector.open(
                    policy,
                    c.security_control,
                    &title,
                    c.invocation_counter,
                    auth_key,
                    c.payload,
                )?
            },
        };
        // The tag has verified: now the counter is spent.
        match self.lookup.replay_window(&title) {
            None => {
                return Err(Error::new(ErrorKind::Unsupported, 0));
            },
            Some(w) => {
                w.accept(c.invocation_counter)?;
            },
        }
        Ok(plain)
    }

    fn handle_inner<'b>(
        &mut self,
        apdu: &[u8],
        sender: Option<SystemTitle>,
        buf: &'b mut [u8],
    ) -> (r: Result<ReceivedNotification<'b>>)
        ensures
            old(self).hears(apdu@, title_view(sender), old(buf)@.len(), final(self), match r {
                Ok(n) => Ok(n@),
                Err(e) => Err(e),
            }),
            final(buf)@.len() == old(buf)@.len(),
    {
        let push = take_apart(apdu, sender)?;
        let plain: Vec<u8> = match &push.ciphered {
            None => {
                // An unprotected notification. It carries no counter and no tag, so
                // there is nothing to check it against beyond the policy.
                if !self.required.is_none() {
                    return Err(Error::new(ErrorKind::UnexpectedMessage, 0));
                }
                let n: usize = apdu.len() - 1;
                if n > buf.len() {
                    return Err(Error::new(ErrorKind::BufferTooSmall { needed: n }, 0));
                }
                let rest: &[u8] = vstd::slice::slice_subrange(apdu, 1, apdu.len());
                let mut v: Vec<u8> = Vec::new();
                extend(&mut v, rest);
                assert(v@ =~= apdu@.skip(1));
                v
            },
            Some(c) => self.open(&push, c, buf.len())?,
        };
        copy_into(buf, plain.as_slice());
        let done: &[u8] = &*buf;
        let bytes: &[u8] = vstd::slice::slice_subrange(done, 0, plain.len());
        assert(bytes@ =~= plain@);
        let n = notification(bytes)?;
        Ok(
            ReceivedNotification {
                system_title: push.title,
                invocation_counter: match &push.ciphered {
                    Some(c) => Some(c.invocation_counter),
                    None => None,
                },
                captured_at: n.date_time.0,
                body: n.body,
            },
        )
    }
}

/// A frame is heard at most once: when one has been opened, no frame of the same sender
/// under the same counter is opened after it, whatever it holds.
pub proof fn law_heard_once<P: CryptoProvider>(
    p: &P,
    required: SecurityPolicy,
    dedicated: bool,
    again: bool,
    title: Option<Seq<u8>>,
    keys: Option<KeyRing>,
    window: Option<WindowV>,
    first: CipheredServiceV,
    second: CipheredServiceV,
    room: nat,
)
    requires
        window matches Some(w) ==> w.wf(),
        second.invocation_counter == first.invocation_counter,
        push_opened(p, required, dedicated, title, keys, window, first, room).0 is Ok,
    ensures
        push_opened(
            p,
            required,
            again,
            title,
            keys,
            push_opened(p, required, dedicated, title, keys, window, first, room).1,
            second,
            room,
        ).0 is Err,
{
}

/// Under a policy that protects, nothing is heard but what was protected at least as
/// strongly, by a sender that is known, under a counter that was not spent.
pub proof fn law_only_protected_is_heard<P: CryptoProvider, L: PushKeyLookup>(
    p: &P,
    lookup: &L,
    required: SecurityPolicy,
    apdu: Seq<u8>,
    sender: Option<Seq<u8>>,
    room: nat,
)
    requires
        !required.is_none(),
        heard(p, lookup, required, apdu, sender, room).0 is Ok,
    ensures
        ({
            let n = heard(p, lookup, required, apdu, sender, room).0->Ok_0;
            &&& n.invocation_counter is Some
            &&& n.system_title is Some
            &&& lookup.known(n.system_title->0) is Some
            &&& lookup.window(n.system_title->0) matches Some(w) && w.admits(
                n.invocation_counter->0,
            )
            &&& pushed(apdu, sender)->Ok_0.ciphered matches Some(c) && required.refusal(
                c.security_control,
            ) is None
        }),
{
}

} // verus!
