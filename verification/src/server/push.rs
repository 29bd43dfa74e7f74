//! Sending a push: the other half of the notification story.
//!
//! A meter's customer interface emits a `DataNotification` on its own initiative — no
//! association, no request, nothing to correlate. [`crate::client::NotificationListener`]
//! reads one; this builds one.
//!
//! It is a separate object from [`super::Server`] for the same reason the listener is
//! separate from a session: **a push is not part of an association**. It is sent when the
//! push setup's communication window opens, to a destination the push setup names,
//! possibly while no client is connected at all. Folding it into the association engine
//! would tie a meter's ability to report to a client's willingness to ask.
//!
//! The protection is the interesting part. A `DataNotification` has no `glo-` tag, so a
//! ciphered push travels inside `general-glo-ciphering`, which carries the meter's system
//! title in the clear — that is how a listener with keys for a hundred meters knows which
//! one to try. The counter that goes with it is this device's own, and it must outlive
//! the process ([`InvocationCounter`]).

use vstd::prelude::*;

use crate::axdr::data::Data;
use crate::axdr::datetime::DateTime;
use crate::bytes::copy_into;
use crate::codec::{BoundedWriter, Encode, Error, ErrorKind, Result};
use crate::security::counter::InvocationCounter;
use crate::security::keys::SystemTitle;
use crate::security::protect::{Protector, SecurityPolicy};
use crate::security::wrap::{protect_apdu, Outgoing};
use crate::security::CryptoProvider;
use crate::xdlms::apdu::Apdu;
use crate::xdlms::ids::{LongInvokeId, OptionalDateTime};
use crate::xdlms::service::DataNotification;
#[allow(unused_imports)]
use crate::axdr::data::DataV;
#[allow(unused_imports)]
use crate::bytes::{be_bytes, lemma_be_bytes_len};
#[allow(unused_imports)]
use crate::client::notify::{
    heard, held, notified, opening_policy, pushed, ProviderWithKeys, PushKeyLookup,
};
#[allow(unused_imports)]
use crate::codec::{clip, not_built, too_many, Cursor};
#[allow(unused_imports)]
use crate::security::keys::KeyUsage;
#[allow(unused_imports)]
use crate::security::law_suite_round_trip;
#[allow(unused_imports)]
use crate::security::protect::{law_own_control_is_accepted, protected_by};
#[allow(unused_imports)]
use crate::security::rustcrypto::unsupported;
#[allow(unused_imports)]
use crate::security::wrap::{restores, wrapped_by, OutgoingV};
#[allow(unused_imports)]
use crate::xdlms::apdu::ApduV;
#[allow(unused_imports)]
use crate::xdlms::ciphering::{law_general_glo_round_trip, CipheredServiceV, GeneralGloCipheringV};
#[allow(unused_imports)]
use crate::xdlms::laws::{law_apdu_round_trip, lemma_data_notification};
#[allow(unused_imports)]
use crate::xdlms::service::DataNotificationV;
#[allow(unused_imports)]
use crate::xdlms::tag::{ciphered_of, tag_of};

verus! {

/// What a sender is, apart from the size of its buffer.
#[verifier::ext_equal]
#[verifier::reject_recursive_types(P)]
pub struct PushV<P> {
    /// Its cryptography.
    pub crypto: P,
    /// The protection it applies.
    pub policy: SecurityPolicy,
    /// What it identifies itself as.
    pub title: Seq<u8>,
    /// The last counter it sent under.
    pub counter: u32,
    /// The last long invoke id it used.
    pub long_invoke_id: u32,
}

/// The long invoke id after one. It has 24 bits.
pub open spec fn next_push(id: u32) -> u32 {
    if id >= 0x00FF_FFFF {
        0
    } else {
        (id + 1) as u32
    }
}

impl<P: CryptoProvider> PushV<P> {
    /// The notification that is sent next.
    pub open spec fn notification(self, captured_at: Option<DateTime>, body: DataV) -> ApduV {
        ApduV::DataNotification(
            DataNotificationV {
                long_invoke_id: LongInvokeId::new(next_push(self.long_invoke_id)),
                date_time: OptionalDateTime(captured_at),
                body,
            },
        )
    }

    /// The sender once it has counted a notification.
    pub open spec fn counted(self) -> PushV<P> {
        PushV { long_invoke_id: next_push(self.long_invoke_id), ..self }
    }

    /// What goes out with a notification. The general wrapper is the only form that a
    /// protected one has.
    pub open spec fn outgoing(self) -> OutgoingV {
        OutgoingV {
            system_title: self.title,
            invocation_counter: (self.counter + 1) as u32,
            auth_key: self.crypto.auth_bytes(),
            policy: self.policy,
            general_allowed: true,
        }
    }

    /// What sending a notification comes to: the sender after, and the bytes that go out or
    /// the refusal. The plain form has to fit in `n` bytes, and what goes out in `room`; a
    /// protected one spends a counter whether it could be built or not.
    pub open spec fn sends(
        self,
        plain: ApduV,
        n: nat,
        room: nat,
        next: PushV<P>,
        sent: Result<Seq<u8>>,
    ) -> bool {
        if !plain.fits() || plain.enc().len() > n {
            &&& next == self.counted()
            &&& sent matches Err(e) && not_built(e, plain.enc(), plain.fits(), n)
        } else if self.policy.is_none() {
            &&& next == self.counted()
            &&& if plain.enc().len() <= room {
                sent == Ok::<Seq<u8>, Error>(plain.enc())
            } else {
                sent == Err::<Seq<u8>, Error>(too_many(plain.enc().len(), room))
            }
        } else if self.counter == u32::MAX {
            next == self.counted() && sent == Err::<Seq<u8>, Error>(unsupported())
        } else {
            &&& next == (PushV { counter: (self.counter + 1) as u32, ..self.counted() })
            &&& sent == wrapped_by(&self.crypto, self.outgoing(), plain.enc(), room)
        }
    }
}

/// Builds pushed notifications.
///
/// `N` is the scratch the plain notification is built in before it is protected, and so
/// bounds the body a single push may carry.
pub struct PushSender<P, const N: usize> {
    protector: Protector<P>,
    system_title: SystemTitle,
    invocation_counter: InvocationCounter,
    long_invoke_id: u32,
}

impl<P: CryptoProvider, const N: usize> View for PushSender<P, N> {
    type V = PushV<P>;

    closed spec fn view(&self) -> PushV<P> {
        PushV {
            crypto: self.protector.crypto(),
            policy: self.protector.in_force(),
            title: self.system_title@,
            counter: self.invocation_counter@,
            long_invoke_id: self.long_invoke_id,
        }
    }
}

impl<P: CryptoProvider, const N: usize> PushSender<P, N> {
    /// A sender identifying itself as `system_title` and protecting under `policy`.
    ///
    /// `invocation_counter` is the last value this device sent under. Zero is right
    /// exactly once per key: a meter that restarts from zero against an unchanged key
    /// repeats every nonce it has ever used, and a repeated GCM nonce leaks the
    /// authentication subkey rather than a single reading. Persist
    /// [`PushSender::invocation_counter`] and hand it back here.
    pub fn new(
        provider: P,
        system_title: SystemTitle,
        policy: SecurityPolicy,
        invocation_counter: u32,
    ) -> (r: Self)
        ensures
            r@ == (PushV {
                crypto: provider,
                policy: policy.global(),
                title: system_title@,
                counter: invocation_counter,
                long_invoke_id: 0,
            }),
    {
        PushSender {
            // A push is never dedicated: there is no association to have negotiated a
            // key for, so the global key set is the only one both ends can hold.
            protector: Protector::new(provider, policy.global()),
            system_title,
            invocation_counter: InvocationCounter::new(invocation_counter),
            long_invoke_id: 0,
        }
    }

    /// The counter this sender last sent under. **Persist this.**
    #[must_use]
    pub fn invocation_counter(&self) -> (r: u32)
        ensures
            r == self@.counter,
    {
        self.invocation_counter.get()
    }

    /// What this sender identifies itself as. A listener finds the key by it.
    #[must_use]
    pub fn system_title(&self) -> (r: SystemTitle)
        ensures
            r@ == self@.title,
    {
        self.system_title
    }

    /// Build one notification.
    ///
    /// `body` is what the push object list produced — for a push setup naming several
    /// objects, a structure with one field per object, in the order the setup lists them.
    /// `captured_at` is when the values were taken, which is not the same as when the
    /// frame is sent and is the field a receiver actually timestamps the reading with.
    ///
    /// # Errors
    /// When a buffer is too small, when the provider cannot find a key, or when the
    /// invocation counter has been exhausted — at which point the key must be changed
    /// rather than the counter wrapped.
    pub fn notify(&mut self, captured_at: Option<DateTime>, body: &Data<'_>, out: &mut [u8]) -> (r:
        Result<usize>)
        ensures
            match r {
                Ok(n) => {
                    &&& n <= old(out)@.len()
                    &&& final(out)@ == final(out)@.take(n as int) + old(out)@.skip(n as int)
                    &&& old(self)@.sends(
                        old(self)@.notification(captured_at, body@),
                        N as nat,
                        old(out)@.len(),
                        final(self)@,
                        Ok(final(out)@.take(n as int)),
                    )
                },
                Err(e) => {
                    &&& final(out)@ == old(out)@
                    &&& old(self)@.sends(
                        old(self)@.notification(captured_at, body@),
                        N as nat,
                        old(out)@.len(),
                        final(self)@,
                        Err(e),
                    )
                },
            },
    {
        let long_invoke_id = self.next_long_invoke_id();
        let notification = DataNotification {
            long_invoke_id,
            date_time: OptionalDateTime(captured_at),
            body: *body,
        };
        let apdu = Apdu::DataNotification(notification);
        assert(apdu@ == old(self)@.notification(captured_at, body@));
        let mut w = BoundedWriter::new(N);
        assert(apdu.enc() == apdu@.enc() && apdu.encodable() == apdu@.fits());
        apdu.encode(&mut w)?;
        let plain = w.finish();
        assert(plain@ =~= apdu@.enc());
        if self.protector.policy().is_none() {
            let room: usize = out.len();
            if plain.len() > room {
                return Err(
                    Error::new(ErrorKind::BufferTooSmall { needed: plain.len() - room }, 0),
                );
            }
            copy_into(out, plain.as_slice());
            assert(out@.take(plain@.len() as int) =~= plain@);
            return Ok(plain.len());
        }
        let invocation_counter: u32 = self.invocation_counter.next()?;
        let ctx = Outgoing {
            system_title: self.system_title,
            invocation_counter,
            auth_key: self.protector.auth_key(),
            policy: self.protector.policy(),
            // A `DataNotification` has no ciphered tag of its own, so the general wrapper
            // is not an option here — it is the only form a protected push has, and the
            // one that carries the system title a listener needs to find the key.
            general_allowed: true,
        };
        assert(ctx@ =~= old(self)@.outgoing());
        let n = protect_apdu(&self.protector, &ctx, plain.as_slice(), out)?;
        proof {
            let w = wrapped_by(
                &old(self)@.crypto,
                old(self)@.outgoing(),
                plain@,
                old(out)@.len(),
            )->Ok_0;
            assert(out@.take(n as int) =~= w);
        }
        Ok(n)
    }

    /// The long invoke id counts pushes so a confirmed one can be matched to its
    /// acknowledgement, and so a receiver can tell a repeat from a new reading.
    fn next_long_invoke_id(&mut self) -> (r: LongInvokeId)
        ensures
            final(self)@ == old(self)@.counted(),
            r == LongInvokeId::new(next_push(old(self)@.long_invoke_id)),
    {
        self.long_invoke_id =
        if self.long_invoke_id >= 0x00FF_FFFF {
            0
        } else {
            self.long_invoke_id + 1
        };
        LongInvokeId::new(self.long_invoke_id)
    }
}

/// The push destination and method a `PushSetup` object holds.
///
/// Where the notification goes is a *configuration* question and not a protocol one, so
/// this is data the caller reads out of its own object model and acts on. The crate does
/// not open the connection: that is I/O, and there is none here.
#[derive(Debug, Clone, Copy, PartialEq, Eq)]
pub enum PushDestination<'a> {
    /// A TCP or UDP endpoint, as the `destination` attribute spells it — for example
    /// `192.168.0.1:7259`.
    Wrapper(&'a str),
    /// An HDLC or M-Bus destination, as the profile defines it.
    Local(&'a str),
    /// Anything else the companion profile names.
    Other(&'a str),
}

impl<'a> PushDestination<'a> {
    /// The destination as the meter's `send_destination_and_method` spells it.
    #[must_use]
    pub fn as_str(&self) -> (r: &'a str)
        ensures
            r@ == (match *self {
                PushDestination::Wrapper(s) => s@,
                PushDestination::Local(s) => s@,
                PushDestination::Other(s) => s@,
            }),
    {
        match self {
            PushDestination::Wrapper(s) => s,
            PushDestination::Local(s) => s,
            PushDestination::Other(s) => s,
        }
    }
}

/// The tag, the four-byte long invoke id, the date-time octet string at its longest,
/// and the general-ciphering wrapper at its worst.
const OVERHEAD: usize = 50;

/// Refuse a body a push cannot carry.
///
/// Not used internally — the encoder's own buffer bound catches an oversized body — but
/// exposed because a scheduler wants to know *before* it opens a connection whether the
/// push it is about to build will fit.
///
/// # Errors
/// [`ErrorKind::BufferTooSmall`] when the encoded body exceeds `max_pdu_size`.
pub fn check_body_fits(body: &Data<'_>, max_pdu_size: u16) -> (r: Result<()>)
    ensures
        body.encodable() ==> match r {
            Ok(_) => body.enc().len() + 50 <= max_pdu_size,
            Err(e) => body.enc().len() + 50 > max_pdu_size && e == (Error {
                kind: ErrorKind::BufferTooSmall {
                    needed: (clip(clip(body.enc().len() as int) + 50) - max_pdu_size) as usize,
                },
                offset: 0,
            }),
        },
{
    let needed: usize = body.encoded_len().saturating_add(OVERHEAD);
    if needed > max_pdu_size as usize {
        return Err(
            Error::new(ErrorKind::BufferTooSmall { needed: needed - max_pdu_size as usize }, 0),
        );
    }
    Ok(())
}

/// Whether a listener can open what a sender protects: it holds the sender's authentication
/// key, has not seen the counter, and its cryptography, under the keys held for the sender,
/// protects as the sender's does and opens what it protects.
pub open spec fn can_open<P: CryptoProvider, Q: CryptoProvider, L: PushKeyLookup>(
    s: PushV<P>,
    q: &Q,
    lookup: &L,
    plain: Seq<u8>,
) -> bool {
    match (lookup.known(s.title), lookup.window(s.title)) {
        (Some(keys), Some(window)) => {
            let p = ProviderWithKeys { inner: q, keys: &keys };
            let ctx = s.outgoing();
            &&& held(keys, KeyUsage::Authentication) == ctx.auth_key
            &&& window.admits(ctx.invocation_counter)
            &&& restores(&p, ctx, plain)
            &&& protected_by(
                &p,
                ctx.policy,
                ctx.system_title,
                ctx.invocation_counter,
                ctx.auth_key->0,
                plain,
            ) == protected_by(
                &s.crypto,
                ctx.policy,
                ctx.system_title,
                ctx.invocation_counter,
                ctx.auth_key->0,
                plain,
            )
        },
        _ => false,
    }
}

/// A push is heard: a listener that demands the protection which the meter applies, and can
/// open what the meter protects, gets the values that were sent, when they were captured
/// and who sent them, and has spent the counter.
pub proof fn law_push_is_heard<P: CryptoProvider, Q: CryptoProvider, L: PushKeyLookup>(
    s: PushV<P>,
    q: &Q,
    lookup: &L,
    captured_at: Option<DateTime>,
    body: DataV,
    scratch: nat,
    out: nat,
    next: PushV<P>,
    sent: Seq<u8>,
    room: nat,
)
    requires
        s.sends(s.notification(captured_at, body), scratch, out, next, Ok(sent)),
        body.valid(),
        s.title.len() == 8,
        !s.policy.dedicated(),
        sent.len() <= room,
        s.policy.is_none() || can_open(s, q, lookup, s.notification(captured_at, body).enc()),
    ensures
        ({
            let (r, window) = heard(q, lookup, s.policy, sent, None, room);
            let protected = !s.policy.is_none();
            &&& r is Ok
            &&& r->Ok_0.captured_at == captured_at
            &&& r->Ok_0.body.same(body)
            &&& r->Ok_0.system_title == if protected { Some(s.title) } else { None }
            &&& r->Ok_0.invocation_counter == if protected { Some(next.counter) } else { None }
            &&& window == if protected {
                Some(lookup.window(s.title)->0.with(next.counter))
            } else {
                None
            }
        }),
{
    let v = DataNotificationV {
        long_invoke_id: LongInvokeId::new(next_push(s.long_invoke_id)),
        date_time: OptionalDateTime(captured_at),
        body,
    };
    let plain = ApduV::DataNotification(v).enc();
    let id = next_push(s.long_invoke_id);
    assert(id & 0x00FF_FFFF <= 0x00FF_FFFF) by (bit_vector);
    lemma_notification_is_found(v);
    reveal(tag_of);
    assert(plain[0] == 0x0F);
    if !s.policy.is_none() {
        let ctx = s.outgoing();
        reveal(wrapped_by);
        let payload = protected_by(
            &s.crypto,
            ctx.policy,
            ctx.system_title,
            ctx.invocation_counter,
            ctx.auth_key->0,
            plain,
        )->Ok_0;
        let content = CipheredServiceV {
            security_control: ctx.policy.control(),
            invocation_counter: ctx.invocation_counter,
            payload,
        };
        lemma_push_frame(ctx, plain, content);
        law_own_control_is_accepted(s.policy);
        law_suite_round_trip(s.policy.suite, 0);
        assert(opening_policy(s.policy, s.policy.suite, false) == s.policy);
    }
}

/// A notification is found again, behind its tag and without it.
proof fn lemma_notification_is_found(v: DataNotificationV)
    requires
        ApduV::DataNotification(v).fits(),
        v.body.valid(),
        v.long_invoke_id.0 <= 0x00FF_FFFF,
    ensures
        ({
            let plain = ApduV::DataNotification(v).enc();
            &&& plain.len() > 0
            &&& plain[0] == 0x0F
            &&& notified(plain) matches Ok(w) && w.same(v)
            &&& notified(plain.skip(1)) matches Ok(w) && w.same(v)
        }),
{
    let plain = ApduV::DataNotification(v).enc();
    law_apdu_round_trip(ApduV::DataNotification(v));
    reveal(ApduV::enc);
    reveal(tag_of);
    let s = plain.skip(1);
    assert(s =~= v.enc());
    let c = Cursor::start(s);
    assert(c.peek(s.len()) =~= s);
    lemma_data_notification(c, v);
    let n = v.long_invoke_id.0 as nat;
    lemma_be_bytes_len(n, 4);
    reveal_with_fuel(be_bytes, 5);
    assert(s[0] == be_bytes(n, 4)[0]);
}

/// What a listener makes of a protected push before it opens it.
proof fn lemma_push_frame(ctx: OutgoingV, plain: Seq<u8>, content: CipheredServiceV)
    requires
        plain.len() > 0,
        plain[0] == 0x0F,
        ctx.general_allowed,
        !ctx.policy.dedicated(),
        ctx.system_title.len() == 8,
        ctx.header(plain) is Ok,
        content.security_control == ctx.policy.control(),
        content.invocation_counter == ctx.invocation_counter,
        content.payload.len() == ctx.payload_len(plain),
    ensures
        ({
            let sent = ctx.header(plain)->Ok_0 + content.payload;
            &&& sent.len() > content.payload.len()
            &&& pushed(sent, None) matches Ok(push) && !push.dedicated && push.title == Some(
                ctx.system_title,
            ) && push.ciphered == Some(content)
        }),
{
    reveal(tag_of);
    reveal(ciphered_of);
    let sent = ctx.header(plain)->Ok_0 + content.payload;
    let g = GeneralGloCipheringV { system_title: ctx.system_title, ciphered: content };
    assert(sent =~= seq![0xDBu8] + g.enc());
    let c = Cursor::start(sent).adv(1);
    assert(c.peek(g.enc().len()) =~= g.enc());
    law_general_glo_round_trip(c, g);
}

} // verus!
