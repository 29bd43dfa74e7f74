//! What a listener makes of what a meter pushes, and what a meter pushes.

use vstd::prelude::*;

use super::notify::{NotificationListener, PushKeyLookup};
use crate::security::CryptoProvider;
#[allow(unused_imports)]
use super::notify::{
    heard, not_tried, notified, opening_policy, push_opened, pushed, ProviderWithKeys, ReceivedV,
};
#[allow(unused_imports)]
use crate::axdr::data::DataV;
#[allow(unused_imports)]
use crate::axdr::datetime::DateTime;
#[allow(unused_imports)]
use crate::codec::{Cursor, Error, ErrorKind, Result};
#[allow(unused_imports)]
use crate::security::counter::WindowV;
#[allow(unused_imports)]
use crate::security::keys::{KeyRefV, KeyRing, KeyUsage};
#[allow(unused_imports)]
use crate::security::laws::number;
#[allow(unused_imports)]
use crate::security::protect::{unprotected_by, KeySet, SecurityPolicy};
#[allow(unused_imports)]
use crate::security::wrap::{wrapped_by, OutgoingV};
#[allow(unused_imports)]
use crate::security::{SecuritySuite, SystemTitle};
#[allow(unused_imports)]
use crate::server::push::{PushSender, PushV as SenderV};
#[allow(unused_imports)]
use crate::xdlms::apdu::ApduV;
#[allow(unused_imports)]
use crate::xdlms::ciphering::{CipheredServiceV, GeneralGloCipheringV};
#[allow(unused_imports)]
use crate::xdlms::ids::{LongInvokeId, OptionalDateTime};
#[allow(unused_imports)]
use crate::xdlms::service::DataNotificationV;
#[allow(unused_imports)]
use crate::xdlms::tag::tag_of;

verus! {

/// What is reported of a frame is what stands in it: when it was captured and the values, and
/// of a protected one who sent it and under which counter. The title in a frame is the
/// sender's; for a frame without one it is the link's; and a frame in the clear is heard only
/// where nothing is demanded.
pub proof fn law_heard_is_what_was_sent<P: CryptoProvider, L: PushKeyLookup>(
    p: &P,
    lookup: &L,
    required: SecurityPolicy,
    apdu: Seq<u8>,
    sender: Option<Seq<u8>>,
    room: nat,
)
    requires
        heard(p, lookup, required, apdu, sender, room).0 is Ok,
    ensures
        ({
            let (r, window) = heard(p, lookup, required, apdu, sender, room);
            let n = r->Ok_0;
            let rest = Cursor::start(apdu).adv(1);
            &&& apdu.len() > 0
            &&& if apdu[0] == 0x0F {
                &&& !required.authenticated && !required.encrypted
                &&& n.system_title is None && n.invocation_counter is None && window is None
                &&& holds(apdu.skip(1), n)
            } else if apdu[0] == 0xDB || apdu[0] == 0xDC {
                GeneralGloCipheringV::p(rest) matches Ok((g, _)) && g.system_title.len() == 8
                    && opened_as(
                    p,
                    lookup,
                    required,
                    apdu[0] == 0xDC,
                    g.system_title,
                    g.ciphered,
                    n,
                    window,
                )
            } else {
                &&& apdu[0] == 0xCA || apdu[0] == 0xD2
                &&& sender is Some
                &&& CipheredServiceV::p(rest) matches Ok((c, _)) && opened_as(
                    p,
                    lookup,
                    required,
                    apdu[0] == 0xD2,
                    sender->0,
                    c,
                    n,
                    window,
                )
            }
        }),
{
    reveal(tag_of);
    let push = pushed(apdu, sender)->Ok_0;
    if let Some(c) = push.ciphered {
        let t = push.title;
        let (opened, window) = push_opened(
            p,
            required,
            push.dedicated,
            t,
            match t {
                Some(t) => lookup.known(t),
                None => None,
            },
            match t {
                Some(t) => lookup.window(t),
                None => None,
            },
            c,
            room,
        );
        assert(opened is Ok);
        let suite = crate::security::suite_of(c.security_control.suite())->Ok_0;
        assert(c.security_control.suite() == number(suite));
        assert(opening_policy(required, suite, push.dedicated) == under(
            required,
            suite,
            push.dedicated,
        ));
        assert(holds(opened->Ok_0, heard(p, lookup, required, apdu, sender, room).0->Ok_0));
    }
}

/// Whether a plain message holds what is reported.
pub open spec fn holds(plain: Seq<u8>, n: ReceivedV) -> bool {
    notified(plain) matches Ok(m) && n.captured_at == m.date_time.0 && n.body == m.body
}

/// Whether what is reported is what the content of a frame opens to: with the keys of its
/// sender, under the sender's title and the counter in it, which was not spent and then is,
/// and protected at least as is demanded.
pub open spec fn opened_as<P: CryptoProvider, L: PushKeyLookup>(
    p: &P,
    lookup: &L,
    required: SecurityPolicy,
    dedicated: bool,
    title: Seq<u8>,
    c: CipheredServiceV,
    n: ReceivedV,
    window: Option<WindowV>,
) -> bool {
    &&& n.system_title == Some(title)
    &&& n.invocation_counter == Some(c.invocation_counter)
    &&& required.refusal(c.security_control) is None
    &&& lookup.known(title) matches Some(keys) && keys@.dom().contains(KeyUsage::Authentication)
        && (lookup.window(title) matches Some(w) && w.admits(c.invocation_counter) && window
        == Some(w.with(c.invocation_counter)) && exists|suite: SecuritySuite, plain: Seq<u8>|
        {
            &&& c.security_control.suite() == #[trigger] number(suite)
            &&& #[trigger] holds(plain, n)
            &&& unprotected_by(
                &ProviderWithKeys { inner: p, keys: &keys },
                under(required, suite, dedicated),
                c.security_control,
                title,
                c.invocation_counter,
                keys@[KeyUsage::Authentication],
                c.payload,
            ) == Ok::<Seq<u8>, Error>(plain)
        })
}

/// The policy that a frame is opened under: what is demanded, by the suite of the frame, with
/// the dedicated key where the tag names it, and otherwise the broadcast key only where that
/// is demanded.
pub open spec fn under(
    required: SecurityPolicy,
    suite: SecuritySuite,
    dedicated: bool,
) -> SecurityPolicy {
    SecurityPolicy {
        suite,
        key_set: if dedicated {
            KeySet::Dedicated
        } else if required.key_set is GlobalBroadcast {
            KeySet::GlobalBroadcast
        } else {
            KeySet::GlobalUnicast
        },
        ..required
    }
}

/// Why a protected frame is not heard: protection that is too weak is unexpected, a sender
/// that is not known is not supported, and a counter that is spent is a bad tag. Its counter
/// is then not spent.
pub proof fn law_frame_is_refused(
    required: SecurityPolicy,
    title: Option<Seq<u8>>,
    keys: Option<KeyRing>,
    window: Option<WindowV>,
    c: CipheredServiceV,
    room: nat,
)
    ensures
        required.refusal(c.security_control) matches Some(e) ==> not_tried(
            required,
            title,
            keys,
            window,
            c,
            room,
        ) == Some(e),
        required.refusal(c.security_control) is None && (title is None || keys is None
            || window is None) ==> not_tried(required, title, keys, window, c, room) == Some(
            Error { kind: ErrorKind::Unsupported, offset: 0 },
        ),
        required.refusal(c.security_control) is None && title is Some && window is Some && keys
            is Some && keys->0@.dom().contains(KeyUsage::Authentication) ==> not_tried(
            required,
            title,
            keys,
            window,
            c,
            room,
        ) == if !window->0.admits(c.invocation_counter) {
            Some(Error { kind: ErrorKind::BadTag, offset: 0 })
        } else if c.payload.len() > room {
            Some(
                Error {
                    kind: ErrorKind::BufferTooSmall { needed: c.payload.len() as usize },
                    offset: 0,
                },
            )
        } else {
            None
        },
{
}

/// A provider that is given keys computes with those: a use stands for the key that the ring
/// has for it, and for none where the ring has none.
pub proof fn law_keys_are_those_of_the_ring<P: CryptoProvider>(
    p: ProviderWithKeys<'_, P>,
    u: KeyUsage,
    suite: SecuritySuite,
    nonce: Seq<u8>,
    aad: Seq<u8>,
    data: Seq<u8>,
    tag: Seq<u8>,
)
    ensures
        p.keys@.dom().contains(u) ==> {
            &&& p.mac(KeyRefV::Usage(u), suite, nonce, aad) == p.inner.mac(
                KeyRefV::Raw(p.keys@[u]),
                suite,
                nonce,
                aad,
            )
            &&& p.sealed(KeyRefV::Usage(u), suite, nonce, aad, data) == p.inner.sealed(
                KeyRefV::Raw(p.keys@[u]),
                suite,
                nonce,
                aad,
                data,
            )
            &&& p.opened(KeyRefV::Usage(u), suite, nonce, aad, data, tag) == p.inner.opened(
                KeyRefV::Raw(p.keys@[u]),
                suite,
                nonce,
                aad,
                data,
                tag,
            )
        },
        !p.keys@.dom().contains(u) ==> p.mac(KeyRefV::Usage(u), suite, nonce, aad) is Err
            && p.sealed(
            KeyRefV::Usage(u),
            suite,
            nonce,
            aad,
            data,
        ) is Err && p.opened(KeyRefV::Usage(u), suite, nonce, aad, data, tag) is Err,
        p.keys@.dom().contains(KeyUsage::Authentication) ==> p.auth_bytes() == Some(
            p.keys@[KeyUsage::Authentication],
        ),
        p.keys@.dom().contains(KeyUsage::Dedicated) ==> p.dedicated_bytes() == Some(
            p.keys@[KeyUsage::Dedicated],
        ),
{
}

/// A push says what it is given to say: the values, when they were captured, and the next
/// number; under the sender's own title and the next counter where it is protected, and in
/// the clear otherwise. It counts from zero again after twenty-four bits.
pub proof fn law_push_says<P: CryptoProvider>(
    s: SenderV<P>,
    captured_at: Option<DateTime>,
    body: DataV,
    n: nat,
    room: nat,
    next: SenderV<P>,
    sent: Seq<u8>,
)
    requires
        s.sends(s.notification(captured_at, body), n, room, next, Ok::<Seq<u8>, Error>(sent)),
        s.long_invoke_id <= 0x00FF_FFFF,
    ensures
        next.long_invoke_id == (s.long_invoke_id + 1) % 0x100_0000,
        next.title == s.title && next.policy == s.policy && next.crypto == s.crypto,
        ({
            let plain = ApduV::DataNotification(
                DataNotificationV {
                    long_invoke_id: LongInvokeId(next.long_invoke_id),
                    date_time: OptionalDateTime(captured_at),
                    body,
                },
            ).enc();
            if s.policy.authenticated || s.policy.encrypted {
                &&& next.counter == s.counter + 1
                &&& wrapped_by(
                    &s.crypto,
                    (OutgoingV {
                        system_title: s.title,
                        invocation_counter: next.counter,
                        auth_key: s.crypto.auth_bytes(),
                        policy: s.policy,
                        general_allowed: true,
                    }),
                    plain,
                    room,
                ) == Ok::<Seq<u8>, Error>(sent)
            } else {
                sent == plain && next.counter == s.counter && sent.len() <= room
            }
        }),
{
    let id = next.long_invoke_id;
    assert(id <= 0x00FF_FFFF ==> id & 0x00FF_FFFF == id) by (bit_vector);
}

/// A frame moves the window of its own sender and nobody else's, and nothing else of the
/// listener.
pub proof fn law_only_the_senders_window_moves<P: CryptoProvider, L: PushKeyLookup>(
    l: NotificationListener<P, L>,
    then: NotificationListener<P, L>,
    apdu: Seq<u8>,
    sender: Option<Seq<u8>>,
    room: nat,
    r: Result<ReceivedV>,
    t: Seq<u8>,
)
    requires
        l.hears(apdu, sender, room, &then, r),
    ensures
        r == heard(&l.crypto(), &l.meters(), l.demanded(), apdu, sender, room).0,
        then.crypto() == l.crypto() && then.demanded() == l.demanded(),
        then.meters().known(t) == l.meters().known(t),
        r is Ok && r->Ok_0.system_title != Some(t) ==> then.meters().window(t)
            == l.meters().window(t),
        r is Ok && r->Ok_0.system_title == Some(t) && r->Ok_0.invocation_counter is Some ==> (
        l.meters().window(t) matches Some(w) && then.meters().window(t) == Some(
            w.with(r->Ok_0.invocation_counter->0),
        )),
{
}

/// A sender of pushes is never under a key of its own association, for it has none; and it
/// goes on from the counter that it is given.
pub proof fn law_new_sender<P: CryptoProvider, const N: usize>(
    provider: P,
    title: SystemTitle,
    policy: SecurityPolicy,
    counter: u32,
)
    ensures
        forall|s: PushSender<P, N>|
            #![trigger call_ensures(PushSender::<P, N>::new, (provider, title, policy, counter), s)]
            call_ensures(PushSender::<P, N>::new, (provider, title, policy, counter), s) ==> {
                &&& s@.crypto == provider && s@.title == title@ && s@.counter == counter
                &&& s@.policy.key_set is GlobalUnicast
                &&& s@.policy.authenticated == policy.authenticated && s@.policy.encrypted
                    == policy.encrypted && s@.policy.suite == policy.suite
                &&& s@.long_invoke_id == 0
            },
{
}

} // verus!
