//! What protection is made of: the bytes that are authenticated, the key, the nonce and the
//! order in which they stand.

use vstd::prelude::*;
#[allow(unused_imports)]
use vstd::string::StringSliceAdditionalSpecFns;

use super::{suite_of, CryptoProvider, SecuritySuite};
#[allow(unused_imports)]
use super::counter::{InvocationCounter, ReplayWindow, WindowV, REPLAY_WIDTH_MAX};
#[allow(unused_imports)]
use super::keys::{
    nonce_bytes, title_text, Key, KeyRef, KeyRefV, KeyRing, KeyUsage, Secret, SystemTitle,
};
#[allow(unused_imports)]
use super::protect::{
    constant_time_eq, gmac_outcome, hls_check_of, hls_reply_of, protected_by, unprotected_by, KeySet, SecurityPolicy,
};
#[allow(unused_imports)]
use super::rustcrypto::{
    gcm128_opened, gcm128_sealed, gcm256_opened, gcm256_sealed, gmac_input, kw128_unwrapped,
    RandomSource,
    RustCryptoProvider,
};
#[allow(unused_imports)]
use super::wrap::{first_byte, unwrapped_by, wrapped_by, FrameV, IncomingV, OutgoingV};
#[allow(unused_imports)]
use crate::bytes::{be_bytes, be_nat, lemma_be_bytes_len, lemma_be_roundtrip, lemma_pow256};
#[allow(unused_imports)]
use crate::codec::{enc_length, Cursor, Error, ErrorKind, Result};
#[allow(unused_imports)]
use crate::text::upper_digit_char;
#[allow(unused_imports)]
use crate::xdlms::ciphering::{
    CipheredServiceV, GeneralCipheringV, GeneralGloCipheringV, KeyInfoV, SecurityControl,
};
#[allow(unused_imports)]
use crate::xdlms::tag::{ciphered_of, plain_of, tag_of, ApduTag, Protection};

verus! {

/// The number of a suite.
pub open spec fn number(suite: SecuritySuite) -> u8 {
    match suite {
        SecuritySuite::Suite0 => 0,
        SecuritySuite::Suite1 => 1,
        SecuritySuite::Suite2 => 2,
    }
}

/// The control byte holds the number of the suite, and above it a bit each for
/// authentication, encryption and the broadcast key.
pub proof fn law_control_byte(p: SecurityPolicy)
    ensures
        p.control().0 == number(p.suite) + (if p.authenticated {
            0x10int
        } else {
            0
        }) + (if p.encrypted {
            0x20int
        } else {
            0
        }) + (if p.key_set is GlobalBroadcast {
            0x40int
        } else {
            0
        }),
        p.suite.id() == number(p.suite),
        p.is_none() == (!p.authenticated && !p.encrypted),
{
    let n = number(p.suite);
    assert(n == 0 || n == 1 || n == 2);
    assert({
        &&& n & 0x0F == n
        &&& (n | 0x10u8 | 0x20u8) & 0xBF == n + 0x30
        &&& (n | 0x10u8 | 0x20u8) | 0x40 == n + 0x70
        &&& (n | 0x10u8 | 0u8) & 0xBF == n + 0x10
        &&& (n | 0x10u8 | 0u8) | 0x40 == n + 0x50
        &&& (n | 0u8 | 0x20u8) & 0xBF == n + 0x20
        &&& (n | 0u8 | 0x20u8) | 0x40 == n + 0x60
        &&& (n | 0u8 | 0u8) & 0xBF == n
        &&& (n | 0u8 | 0u8) | 0x40 == n + 0x40
    }) by (bit_vector)
        requires
            n <= 2,
    ;
}

/// What a received control byte says is in its bits: the suite in the four lowest, and above
/// them authentication, encryption, the broadcast key and compression.
pub proof fn law_control_bits(c: SecurityControl)
    ensures
        c.suite() == c.0 % 16,
        c.authenticated() == ((c.0 / 16) % 2 == 1),
        c.encrypted() == ((c.0 / 32) % 2 == 1),
        c.broadcast_key() == ((c.0 / 64) % 2 == 1),
        c.compressed() == (c.0 >= 128),
        c.is_plain() == (!c.authenticated() && !c.encrypted()),
{
    let b = c.0;
    assert({
        &&& b & 0x0F == b % 16
        &&& (b & 0x10 != 0) == ((b / 16) % 2 == 1)
        &&& (b & 0x20 != 0) == ((b / 32) % 2 == 1)
        &&& (b & 0x40 != 0) == ((b / 64) % 2 == 1)
        &&& (b & 0x80 != 0) == (b >= 128)
    }) by (bit_vector);
}

/// A key set names its own key, and each way of changing a policy changes that and nothing
/// else.
pub proof fn law_key_set_names_its_key(p: SecurityPolicy)
    ensures
        p.key_usage() is GlobalUnicastEncryption == (p.key_set is GlobalUnicast),
        p.key_usage() is GlobalBroadcastEncryption == (p.key_set is GlobalBroadcast),
        p.key_usage() is Dedicated == (p.key_set is Dedicated),
        p.dedicated() == (p.key_set is Dedicated),
        p.broadcast() == (p.key_set is GlobalBroadcast),
        p.global() == (SecurityPolicy { key_set: KeySet::GlobalUnicast, ..p }),
        p.with_dedicated(true) == (SecurityPolicy { key_set: KeySet::Dedicated, ..p }),
        p.with_dedicated(false) == (SecurityPolicy { key_set: KeySet::GlobalUnicast, ..p }),
        p.with_broadcast(true) == (SecurityPolicy { key_set: KeySet::GlobalBroadcast, ..p }),
        p.with_broadcast(false) == (SecurityPolicy { key_set: KeySet::GlobalUnicast, ..p }),
        KeyUsage::GlobalUnicastEncryption.key_id() == Some(0u8),
        KeyUsage::GlobalBroadcastEncryption.key_id() == Some(1u8),
        KeyUsage::Dedicated.key_id() is None,
        KeyUsage::Authentication.key_id() is None,
        KeyUsage::KeyEncrypting.key_id() is None,
{
}

/// A number of four bytes, the most significant first.
pub open spec fn four(n: u32) -> Seq<u8> {
    seq![
        (n / 0x100_0000) as u8,
        (n / 0x1_0000 % 0x100) as u8,
        (n / 0x100 % 0x100) as u8,
        (n % 0x100) as u8,
    ]
}

/// A counter goes out most significant byte first.
pub proof fn law_counter_bytes(n: u32)
    ensures
        be_bytes(n as nat, 4) == four(n),
        be_nat(four(n)) == n,
{
    reveal_with_fuel(be_bytes, 5);
    assert(be_bytes(n as nat, 4) =~= four(n));
    lemma_pow256();
    lemma_be_roundtrip(n as nat, 4);
}

/// A nonce is the title of the sender and then the counter.
pub proof fn law_nonce_is_title_and_counter(title: Seq<u8>, ic: u32)
    requires
        title.len() == 8,
    ensures
        nonce_bytes(title, ic).len() == 12,
        nonce_bytes(title, ic).take(8) == title,
        nonce_bytes(title, ic).skip(8) == four(ic),
{
    law_counter_bytes(ic);
    assert(nonce_bytes(title, ic).take(8) =~= title);
    assert(nonce_bytes(title, ic).skip(8) =~= four(ic));
}

/// The answer to a challenge is seventeen bytes where the tag has twelve: how it was made,
/// which is authenticated only and in the clear, the responder's counter, and the tag over
/// that byte, the authentication key and the challenge, in that order, under the global
/// unicast key and the responder's own nonce. Where there is no such tag there is no answer.
pub proof fn law_hls_answer_is_the_tag_of_the_challenge<P: CryptoProvider>(
    p: &P,
    policy: SecurityPolicy,
    title: Seq<u8>,
    ic: u32,
    auth_key: Seq<u8>,
    challenge: Seq<u8>,
)
    ensures
        ({
            let sc = (0x10 + number(policy.suite)) as u8;
            let tag = p.mac(
                KeyRefV::Usage(KeyUsage::GlobalUnicastEncryption),
                policy.suite,
                title + four(ic),
                seq![sc] + auth_key + challenge,
            );
            match hls_reply_of(p, policy, title, ic, auth_key, challenge) {
                Ok(reply) => tag is Ok && reply == seq![sc] + four(ic) + tag->Ok_0,
                Err(e) => tag == Err::<Seq<u8>, Error>(e),
            }
        }),
{
    law_counter_bytes(ic);
    law_control_byte(
        SecurityPolicy {
            authenticated: true,
            encrypted: false,
            key_set: KeySet::GlobalUnicast,
            ..policy
        },
    );
    let n = number(policy.suite);
    assert((n & 0x0F) | 0x10u8 | 0u8 == n + 0x10) by (bit_vector)
        requires
            n <= 2,
    ;
}

/// An answer to a challenge is accepted exactly where it is seventeen bytes, says that it is
/// authenticated only, under this suite, and its last twelve bytes are the tag over its first
/// byte, the authentication key and the challenge, under the global unicast key and the nonce
/// of the one who is asked and the counter that stands in it.
pub proof fn law_hls_answer_is_checked_against_the_challenge<P: CryptoProvider>(
    p: &P,
    policy: SecurityPolicy,
    title: Seq<u8>,
    auth_key: Seq<u8>,
    challenge: Seq<u8>,
    response: Seq<u8>,
    ic: u32,
)
    requires
        response.len() == 17 ==> response.subrange(1, 5) == four(ic),
    ensures
        hls_check_of(p, policy, title, auth_key, challenge, response) is Ok <==> {
            &&& response.len() == 17
            &&& response[0] == 0x10 + number(policy.suite)
            &&& p.mac(
                KeyRefV::Usage(KeyUsage::GlobalUnicastEncryption),
                policy.suite,
                title + four(ic),
                seq![response[0]] + auth_key + challenge,
            ) == Ok::<Seq<u8>, Error>(response.skip(5))
        },
        response.len() != 17 ==> hls_check_of(p, policy, title, auth_key, challenge, response)
            == Err::<(), Error>(Error { kind: ErrorKind::InvalidLength, offset: 0 }),
        response.len() == 17 && response[0] != 0x10 + number(policy.suite) ==> hls_check_of(
            p,
            policy,
            title,
            auth_key,
            challenge,
            response,
        ) == Err::<(), Error>(Error { kind: ErrorKind::UnexpectedMessage, offset: 0 }),
{
    law_counter_bytes(ic);
    let b = response[0];
    let n = number(policy.suite);
    law_control_bits(SecurityControl(b));
    assert(policy.suite.id() == n);
    assert(b & 0x0F == n && b & 0x10 != 0 && b & 0x20 == 0 && b & 0x40 == 0 && b & 0x80 == 0 <==> b
        == n + 0x10) by (bit_vector)
        requires
            n <= 2,
    ;
}

/// A tag over data is the tag over the control byte, the authentication key and the data, in
/// that order, under the key set in force and the suite that the byte names.
pub proof fn law_tag_covers_control_key_and_data<P: CryptoProvider>(
    p: &P,
    policy: SecurityPolicy,
    control: SecurityControl,
    auth_key: Seq<u8>,
    iv: Seq<u8>,
    data: Seq<u8>,
    r: Result<Seq<u8>>,
    suite: SecuritySuite,
)
    requires
        gmac_outcome(p, policy, control, auth_key, iv, data, r),
    ensures
        control.0 % 16 == number(suite) ==> r == p.mac(
            KeyRefV::Usage(policy.key_usage()),
            suite,
            iv,
            seq![control.0] + auth_key + data,
        ),
        control.0 % 16 > 2 ==> r == Err::<Seq<u8>, Error>(
            Error { kind: ErrorKind::Unsupported, offset: 0 },
        ),
{
    law_control_bits(control);
}

/// What a message becomes: authenticated and encrypted, the ciphertext and then the tag, both
/// under the control byte and the authentication key; authenticated only, the message itself
/// and then the tag over the control byte, the key and the message; encrypted only, the
/// ciphertext under nothing; and otherwise the message. Always under the key of the key set
/// and the nonce of the sender's title and this counter.
pub proof fn law_protected_is_made_of<P: CryptoProvider>(
    p: &P,
    policy: SecurityPolicy,
    title: Seq<u8>,
    ic: u32,
    auth_key: Seq<u8>,
    plain: Seq<u8>,
)
    requires
        auth_key.len() <= 32,
    ensures
        ({
            let key = KeyRefV::Usage(
                match policy.key_set {
                    KeySet::GlobalUnicast => KeyUsage::GlobalUnicastEncryption,
                    KeySet::GlobalBroadcast => KeyUsage::GlobalBroadcastEncryption,
                    KeySet::Dedicated => KeyUsage::Dedicated,
                },
            );
            let sc = policy.control().0;
            let made = protected_by(p, policy, title, ic, auth_key, plain);
            match (policy.authenticated, policy.encrypted) {
                (true, true) => match p.sealed(
                    key,
                    policy.suite,
                    title + four(ic),
                    seq![sc] + auth_key,
                    plain,
                ) {
                    Ok((data, tag)) => made == Ok::<Seq<u8>, Error>(data + tag),
                    Err(e) => made == Err::<Seq<u8>, Error>(e),
                },
                (true, false) => match p.mac(
                    key,
                    policy.suite,
                    title + four(ic),
                    seq![sc] + auth_key + plain,
                ) {
                    Ok(tag) => made == Ok::<Seq<u8>, Error>(plain + tag),
                    Err(e) => made == Err::<Seq<u8>, Error>(e),
                },
                (false, true) => match p.sealed(
                    key,
                    policy.suite,
                    title + four(ic),
                    Seq::empty(),
                    plain,
                ) {
                    Ok((data, _)) => made == Ok::<Seq<u8>, Error>(data),
                    Err(e) => made == Err::<Seq<u8>, Error>(e),
                },
                (false, false) => made == Ok::<Seq<u8>, Error>(plain),
            }
        }),
{
    law_counter_bytes(ic);
}

/// What a protected message opens to, where the policy takes it: the same bytes are
/// authenticated, under the same key and nonce, as when it was made; and a tag that is not
/// the right one is refused.
pub proof fn law_opened_is_checked<P: CryptoProvider>(
    p: &P,
    policy: SecurityPolicy,
    control: SecurityControl,
    title: Seq<u8>,
    ic: u32,
    auth_key: Seq<u8>,
    data: Seq<u8>,
    tag: Seq<u8>,
    suite: SecuritySuite,
)
    requires
        auth_key.len() <= 32,
        policy.refusal(control) is None,
        control.0 % 16 == number(suite),
        tag.len() == 12,
    ensures
        ({
            let key = KeyRefV::Usage(policy.key_usage());
            let iv = title + four(ic);
            let opened = unprotected_by(p, policy, control, title, ic, auth_key, data + tag);
            match (control.authenticated(), control.encrypted()) {
                (true, true) => opened == p.opened(
                    key,
                    suite,
                    iv,
                    seq![control.0] + auth_key,
                    data,
                    tag,
                ),
                (true, false) => match p.mac(key, suite, iv, seq![control.0] + auth_key + data) {
                    Err(e) => opened == Err::<Seq<u8>, Error>(e),
                    Ok(t) => opened == if t == tag {
                        Ok::<Seq<u8>, Error>(data)
                    } else {
                        Err(Error { kind: ErrorKind::BadTag, offset: 0 })
                    },
                },
                (false, true) => match p.sealed(key, suite, iv, Seq::empty(), data + tag) {
                    Ok((back, _)) => opened == Ok::<Seq<u8>, Error>(back),
                    Err(e) => opened == Err::<Seq<u8>, Error>(e),
                },
                (false, false) => opened == Ok::<Seq<u8>, Error>(data + tag),
            }
        }),
{
    law_counter_bytes(ic);
    law_control_bits(control);
    let payload = data + tag;
    assert(payload.take(payload.len() - 12) =~= data);
    assert(payload.skip(payload.len() - 12) =~= tag);
}

/// What a policy refuses: compression, another key set than its own, another suite than its
/// own, and less protection than it asks for; and nothing else.
pub proof fn law_what_is_refused(p: SecurityPolicy, c: SecurityControl)
    ensures
        p.refusal(c) is None <==> {
            &&& !c.compressed()
            &&& c.broadcast_key() == (p.key_set is GlobalBroadcast)
            &&& p.authenticated || p.encrypted ==> {
                &&& c.suite() == number(p.suite)
                &&& p.authenticated ==> c.authenticated()
                &&& p.encrypted ==> c.encrypted()
            }
        },
        p.refusal(c) matches Some(e) ==> e == (Error {
            kind: if c.compressed() {
                ErrorKind::Unsupported
            } else {
                ErrorKind::UnexpectedMessage
            },
            offset: 0,
        }),
{
}

/// A protected message stands behind what names the service outside: the length of what
/// follows, how it is protected, and the counter.
pub proof fn law_wrapped_is_made_of<P: CryptoProvider>(
    p: &P,
    ctx: OutgoingV,
    plain: Seq<u8>,
    room: nat,
)
    requires
        !ctx.policy.is_none(),
        wrapped_by(p, ctx, plain, room) is Ok,
    ensures
        ({
            let w = wrapped_by(p, ctx, plain, room)->Ok_0;
            let sealed = protected_by(
                p,
                ctx.policy,
                ctx.system_title,
                ctx.invocation_counter,
                ctx.auth_key->0,
                plain,
            );
            let outer = if ctx.policy.dedicated() {
                Protection::Dedicated
            } else {
                Protection::Global
            };
            let n = 5 + plain.len() + (if ctx.policy.authenticated {
                12int
            } else {
                0
            });
            &&& ctx.auth_key is Some && sealed is Ok
            &&& tag_of(first_byte(plain)) is Some
            &&& match ciphered_of(tag_of(first_byte(plain))->0, outer) {
                Some(t) => w == seq![t.code()] + enc_length(n as nat) + seq![
                    ctx.policy.control().0,
                ] + four(ctx.invocation_counter) + sealed->Ok_0,
                None => {
                    &&& ctx.general_allowed
                    &&& w == seq![
                        if ctx.policy.dedicated() {
                            0xDCu8
                        } else {
                            0xDBu8
                        },
                    ] + (enc_length(ctx.system_title.len()) + ctx.system_title) + enc_length(
                        n as nat,
                    ) + seq![ctx.policy.control().0] + four(ctx.invocation_counter) + sealed->Ok_0
                },
            }
        }),
        plain.len() > 0,
{
    reveal(wrapped_by);
    reveal(tag_of);
    law_counter_bytes(ctx.invocation_counter);
}

/// The service that is named outside is the one inside: the tags of the ciphered forms are
/// those of the plain ones plus a distance that the key set and the kind of service give.
pub proof fn law_ciphered_codes(t: ApduTag)
    ensures
        ciphered_of(t, Protection::Global) matches Some(u) ==> u.code() == t.code() + (if t.code()
            < 0x80 {
            0x20int
        } else {
            0x08
        }),
        ciphered_of(t, Protection::Dedicated) matches Some(u) ==> u.code() == t.code()
            + (if t.code()
            < 0x80 {
            0x40int
        } else {
            0x10
        }),
        t is GetRequest || t is GetResponse || t is SetRequest || t is SetResponse
            || t is ActionRequest || t is ActionResponse || t is EventNotification
            || t is ReadRequest || t is ReadResponse || t is WriteRequest || t is WriteResponse
            || t is UnconfirmedWriteRequest || t is ConfirmedServiceError
            || t is InformationReport ==> ciphered_of(t, Protection::Global) is Some
            && ciphered_of(t, Protection::Dedicated) is Some,
        t is InitiateRequest || t is InitiateResponse ==> ciphered_of(t, Protection::Global) is Some
            && ciphered_of(t, Protection::Dedicated) is None,
{
    reveal(ciphered_of);
}

/// A message that opens is for this end: the one who sent it is the one who is known, where
/// it names whom it is for it names this end, where it names a key it names the one in force,
/// it is under the key set in force, and inside is the service that was named outside.
pub proof fn law_opened_is_for_this_end<P: CryptoProvider>(
    p: &P,
    ctx: IncomingV,
    window: WindowV,
    apdu: Seq<u8>,
    room: nat,
)
    requires
        unwrapped_by(p, ctx, window, apdu, room).0 is Ok,
        apdu.len() > 0,
    ensures
        ({
            let plain = unwrapped_by(p, ctx, window, apdu, room).0->Ok_0;
            let c = Cursor::start(apdu).adv(1);
            match tag_of(apdu[0]) {
                None => false,
                Some(t) => if t is GeneralGloCiphering || t is GeneralDedCiphering {
                    GeneralGloCipheringV::p(c) matches Ok((g, _)) && ctx.peer == Some(
                        g.system_title,
                    ) && (t is GeneralDedCiphering) == ctx.policy.dedicated() && opens_as(
                        p,
                        ctx,
                        window,
                        g.ciphered,
                        plain,
                    )
                } else if t is GeneralCiphering {
                    GeneralCipheringV::p(c) matches Ok((g, _)) && ctx.peer == Some(
                        g.originator_system_title,
                    ) && (ctx.local matches Some(l) ==> g.recipient_system_title.len() == 0
                        || g.recipient_system_title == l) && !ctx.policy.dedicated() && (
                    g.key_info matches Some(k) ==> k == (KeyInfoV::Identified {
                        key_id: ctx.policy.key_usage().key_id()->0,
                    })) && opens_as(p, ctx, window, g.ciphered, plain)
                } else {
                    match plain_of(t) {
                        None => plain == apdu,
                        Some((q, inside)) => CipheredServiceV::p(c) matches Ok((s, _)) && (
                        q is Dedicated) == ctx.policy.dedicated() && plain.len() > 0 && plain[0]
                            == inside.code() && opens_as(p, ctx, window, s, plain),
                    }
                },
            }
        }),
{
    reveal(unwrapped_by);
}

/// Whether what is protected opens to this, under the peer's title and a counter that has not
/// been seen.
pub open spec fn opens_as<P: CryptoProvider>(
    p: &P,
    ctx: IncomingV,
    window: WindowV,
    content: CipheredServiceV,
    plain: Seq<u8>,
) -> bool {
    &&& window.admits(content.invocation_counter)
    &&& ctx.peer is Some && ctx.auth_key is Some
    &&& unprotected_by(
        p,
        ctx.policy,
        content.security_control,
        ctx.peer->0,
        content.invocation_counter,
        ctx.auth_key->0,
        content.payload,
    ) == Ok::<Seq<u8>, Error>(plain)
}

/// What a window holds once some counters have been offered: only counters that were, and the
/// highest of those that it took.
proof fn lemma_window_holds(start: WindowV, offered: Seq<u32>)
    requires
        start.highest is None,
        start.seen == Set::<u32>::empty(),
    ensures
        start.after(offered).width == start.width,
        forall|v: u32| #[trigger]
            start.after(offered).seen.contains(v) ==> offered.contains(v),
        start.after(offered).highest is None <==> offered.len() == 0,
        start.after(offered).highest matches Some(h) ==> offered.contains(h),
        forall|i: int|
            0 <= i < offered.len() ==> (#[trigger] offered[i]) <= start.after(offered).highest->0,
    decreases offered.len(),
{
    if offered.len() > 0 {
        let rest = offered.drop_last();
        lemma_window_holds(start, rest);
        let before = start.after(rest);
        let v = offered.last();
        assert(offered[offered.len() - 1] == v);
        assert forall|x: u32| rest.contains(x) implies offered.contains(x) by {
            let i = choose|i: int| 0 <= i < rest.len() && rest[i] == x;
            assert(offered[i] == x);
        }
        assert forall|i: int| 0 <= i < offered.len() implies (#[trigger] offered[i])
            <= start.after(offered).highest->0 by {
            if i < rest.len() {
                assert(rest[i] == offered[i]);
            }
        }
    }
}

/// A window takes what it should: a counter above all that were offered, always; and one that
/// is below, exactly where it was never offered and is no further below the highest than the
/// window is wide. A window of no width takes only rising counters.
pub proof fn law_fresh_counters_are_taken(start: WindowV, offered: Seq<u32>, v: u32)
    requires
        start.highest is None,
        start.seen == Set::<u32>::empty(),
    ensures
        (forall|i: int| 0 <= i < offered.len() ==> #[trigger] offered[i] < v) ==> start.after(
            offered,
        ).admits(v),
        !offered.contains(v) && (forall|i: int|
            0 <= i < offered.len() ==> #[trigger] offered[i] <= v + start.width) ==> start.after(
            offered,
        ).admits(v),
        start.after(offered).admits(v) && offered.len() > 0 ==> forall|i: int|
            0 <= i < offered.len() ==> #[trigger] offered[i] <= v + start.width,
        start.width <= REPLAY_WIDTH_MAX && offered.contains(v) ==> !start.after(offered).admits(v),
{
    lemma_window_holds(start, offered);
    let after = start.after(offered);
    if let Some(h) = after.highest {
        let i = choose|i: int| 0 <= i < offered.len() && offered[i] == h;
        assert(offered[i] == h);
    }
    if start.width <= REPLAY_WIDTH_MAX && offered.contains(v) {
        lemma_offered_is_spent(start, offered, v);
    }
}

proof fn lemma_offered_is_spent(start: WindowV, offered: Seq<u32>, v: u32)
    requires
        start.highest is None,
        start.seen == Set::<u32>::empty(),
        start.width <= REPLAY_WIDTH_MAX,
        offered.contains(v),
    ensures
        !start.after(offered).admits(v),
    decreases offered.len(),
{
    lemma_window_holds(start, offered);
    let rest = offered.drop_last();
    lemma_window_holds(start, rest);
    if offered.last() != v {
        let i = choose|i: int| 0 <= i < offered.len() && offered[i] == v;
        assert(rest[i] == v);
        lemma_offered_is_spent(start, rest, v);
    }
}

/// Why a protected message is not opened: one from nobody who is known is unexpected, one
/// under a counter that was seen is a replay, one that is too long does not fit, and without
/// the key none is; and then its counter is not spent.
pub proof fn law_why_it_is_not_opened<P: CryptoProvider>(
    p: &P,
    ctx: IncomingV,
    window: WindowV,
    apdu: Seq<u8>,
    room: nat,
    content: CipheredServiceV,
)
    requires
        ctx.frame(apdu) matches Ok(FrameV::Protected { content: c, .. }) && c == content,
    ensures
        ({
            let (r, after) = unwrapped_by(p, ctx, window, apdu, room);
            &&& ctx.peer is None ==> r == Err::<Seq<u8>, Error>(
                Error { kind: ErrorKind::UnexpectedMessage, offset: 0 },
            ) && after == window
            &&& ctx.peer is Some && !window.admits(content.invocation_counter) ==> r == Err::<
                Seq<u8>,
                Error,
            >(Error { kind: ErrorKind::Replay, offset: 0 }) && after == window
            &&& ctx.peer is Some && window.admits(content.invocation_counter)
                && content.payload.len() <= room && ctx.auth_key is None ==> r == Err::<
                Seq<u8>,
                Error,
            >(Error { kind: ErrorKind::Unsupported, offset: 0 }) && after == window
            &&& ctx.peer is Some && window.admits(content.invocation_counter)
                && content.payload.len() > room ==> (r matches Err(e) && e.kind is BufferTooSmall)
                && after == window
            &&& r is Ok ==> after == window.with(content.invocation_counter)
            &&& ctx.peer is Some && window.admits(content.invocation_counter)
                && content.payload.len() <= room && ctx.auth_key is Some ==> (unprotected_by(
                p,
                ctx.policy,
                content.security_control,
                ctx.peer->0,
                content.invocation_counter,
                ctx.auth_key->0,
                content.payload,
            ) matches Err(e) ==> r == Err::<Seq<u8>, Error>(e) && after == window)
        }),
{
    reveal(unwrapped_by);
}

/// Accepting a counter spends that one and no other, and moves the highest up and never down.
pub proof fn law_accepting_spends_one(w: WindowV, v: u32, x: u32)
    requires
        w.wf(),
        w.admits(v),
    ensures
        !w.with(v).admits(v),
        w.with(v).width == w.width,
        w.with(v).highest == Some(
            match w.highest {
                Some(h) => if h > v {
                    h
                } else {
                    v
                },
                None => v,
            },
        ),
        x != v && w.admits(x) && x > w.with(v).highest->0 - w.width ==> w.with(v).admits(x),
{
}

/// A provider seals, opens and computes tags with the key that it is given or that its ring
/// holds for the use, which has to be as long as the suite needs: sixteen bytes, or thirty-two
/// for the third.
pub proof fn law_provider_uses_the_key<R: RandomSource>(
    p: RustCryptoProvider<R>,
    u: KeyUsage,
    k: Seq<u8>,
    suite: SecuritySuite,
    nonce: Seq<u8>,
    aad: Seq<u8>,
    data: Seq<u8>,
    tag: Seq<u8>,
)
    requires
        p.ring()@.dom().contains(u),
        p.ring()@[u] == k,
        aad.len() <= 0x1000,
        data.len() <= 0x1000,
    ensures
        ({
            let fits = k.len() == if suite is Suite2 {
                32int
            } else {
                16
            };
            let key = KeyRefV::Usage(u);
            &&& !fits ==> p.sealed(key, suite, nonce, aad, data) is Err && p.opened(
                key,
                suite,
                nonce,
                aad,
                data,
                tag,
            ) is Err && p.mac(key, suite, nonce, aad) is Err
            &&& fits && suite is Suite2 ==> {
                &&& p.sealed(key, suite, nonce, aad, data) == Ok::<(Seq<u8>, Seq<u8>), Error>(
                    gcm256_sealed(k, nonce, aad, data),
                )
                &&& p.opened(key, suite, nonce, aad, data, tag) == match gcm256_opened(
                    k,
                    nonce,
                    aad,
                    data,
                    tag,
                ) {
                    Some(d) => Ok::<Seq<u8>, Error>(d),
                    None => Err(Error { kind: ErrorKind::BadTag, offset: 0 }),
                }
            }
            &&& fits && !(suite is Suite2) ==> {
                &&& p.sealed(key, suite, nonce, aad, data) == Ok::<(Seq<u8>, Seq<u8>), Error>(
                    gcm128_sealed(k, nonce, aad, data),
                )
                &&& p.opened(key, suite, nonce, aad, data, tag) == match gcm128_opened(
                    k,
                    nonce,
                    aad,
                    data,
                    tag,
                ) {
                    Some(d) => Ok::<Seq<u8>, Error>(d),
                    None => Err(Error { kind: ErrorKind::BadTag, offset: 0 }),
                }
            }
            &&& p.sealed(KeyRefV::Raw(k), suite, nonce, aad, data) == p.sealed(
                key,
                suite,
                nonce,
                aad,
                data,
            )
            &&& p.mac(KeyRefV::Raw(k), suite, nonce, aad) == p.mac(key, suite, nonce, aad)
        }),
{
}

/// What a tag with no ciphertext is computed over: the data, filled up with zeros to whole
/// blocks of sixteen bytes, and then its length in bits and a zero, eight bytes each.
pub proof fn law_tag_input(aad: Seq<u8>)
    requires
        aad.len() < 0x1000_0000_0000_0000,
    ensures
        ({
            let n = aad.len() as int;
            let t = gmac_input(aad);
            let whole = if n % 16 == 0 {
                n
            } else {
                n - n % 16 + 16
            };
            &&& t.len() == whole + 16
            &&& t.take(n) == aad
            &&& forall|i: int| n <= i < whole ==> #[trigger] t[i] == 0
            &&& t.subrange(whole, whole + 8) == be_bytes((8 * n) as nat, 8)
            &&& forall|i: int| whole + 8 <= i < whole + 16 ==> #[trigger] t[i] == 0
        }),
{
    let n = aad.len() as int;
    let t = gmac_input(aad);
    let whole = if n % 16 == 0 {
        n
    } else {
        n - n % 16 + 16
    };
    lemma_be_bytes_len((8 * n) as nat, 8);
    assert(t.take(n) =~= aad);
    assert(t.subrange(whole, whole + 8) =~= be_bytes((8 * n) as nat, 8));
}

/// A ring gives back the key that was put in for a use, and a key for one use is not the key
/// for another; the dedicated key is forgotten alone.
pub proof fn law_ring_keeps_keys_apart(u: KeyUsage, v: KeyUsage, key: Key)
    ensures
        forall|r: &mut KeyRing|
            #![trigger call_ensures(KeyRing::set, (r, u, key), ())]
            call_ensures(KeyRing::set, (r, u, key), ()) ==> final(r)@.dom().contains(u) && final(
                r)@[u] == key@ && (v != u ==> final(r)@.dom().contains(v) == (*r)@.dom().contains(v)
                && ((*r)@.dom().contains(v) ==> final(r)@[v] == (*r)@[v])),
        forall|r: &mut KeyRing|
            #![trigger call_ensures(KeyRing::set_dedicated, (r, key), ())]
            call_ensures(KeyRing::set_dedicated, (r, key), ()) ==> final(r)@.dom().contains(
                KeyUsage::Dedicated) && final(r)@[KeyUsage::Dedicated] == key@,
        forall|r: &mut KeyRing|
            #![trigger call_ensures(KeyRing::clear_dedicated, (r,), ())]
            call_ensures(KeyRing::clear_dedicated, (r,), ()) ==> !final(r)@.dom().contains(
                KeyUsage::Dedicated) && (!(v is Dedicated) ==> final(r)@.dom().contains(v)
                == (*r)@.dom().contains(v)),
        forall|r: &KeyRing, k: Option<&[u8]>|
            #![trigger call_ensures(KeyRing::get, (r, u), k)]
            call_ensures(KeyRing::get, (r, u), k) ==> (k is Some <==> r@.dom().contains(u)) && (
            k matches Some(b) ==> b@ == r@[u]),
{
}

/// A window is asked and told: it takes a counter exactly where it admits it, and has then
/// spent it; one that is refused changes nothing. A new one is as wide as asked for, up to its
/// limit, and has spent nothing; one that is resumed refuses everything up to where it was and
/// takes everything above; and what it says it expects, it takes.
pub proof fn law_window_does_as_stated(width: u32, highest: u32, v: u32)
    ensures
        forall|w: ReplayWindow|
            #![trigger call_ensures(ReplayWindow::new, (width,), w)]
            call_ensures(ReplayWindow::new, (width,), w) ==> w@.highest is None
                && w@.seen.is_empty() && w@.width == if width < 63 {
                width
            } else {
                63
            },
        forall|w: ReplayWindow|
            #![trigger call_ensures(ReplayWindow::strict, (), w)]
            call_ensures(ReplayWindow::strict, (), w) ==> w@.highest is None && w@.width == 0
                && w@.with(highest).admits(v) == (v > highest),
        forall|w: ReplayWindow|
            #![trigger call_ensures(ReplayWindow::resumed, (highest, width), w)]
            call_ensures(ReplayWindow::resumed, (highest, width), w) ==> w@.admits(v) == (v
                > highest),
        forall|w: &ReplayWindow, r: Result<()>|
            #![trigger call_ensures(ReplayWindow::check, (w, v), r)]
            call_ensures(ReplayWindow::check, (w, v), r) ==> (r is Ok <==> w@.admits(v)),
        forall|w: &mut ReplayWindow, r: Result<()>|
            #![trigger call_ensures(ReplayWindow::accept, (w, v), r)]
            call_ensures(ReplayWindow::accept, (w, v), r) ==> {
                &&& r is Ok <==> (*w)@.admits(v)
                &&& r is Ok ==> final(w)@ == (*w)@.with(v) && !final(w)@.admits(v)
                &&& r is Err ==> final(w)@ == (*w)@ && r->Err_0.kind is BadTag
            },
        forall|w: &ReplayWindow, n: u32|
            #![trigger call_ensures(ReplayWindow::expected_next, (w,), n)]
            call_ensures(ReplayWindow::expected_next, (w,), n) && w@.highest != Some(u32::MAX)
                ==> w@.admits(n),
{
    assert forall|w: ReplayWindow|
        #![trigger call_ensures(ReplayWindow::strict, (), w)]
        call_ensures(ReplayWindow::strict, (), w) implies w@.highest is None && w@.width == 0
        && w@.with(highest).admits(v) == (v > highest) by {
        assert(w@.with(highest).seen.contains(highest));
    }
    assert forall|w: &mut ReplayWindow, r: Result<()>|
        #![trigger call_ensures(ReplayWindow::accept, (w, v), r)]
        call_ensures(ReplayWindow::accept, (w, v), r) && r is Ok implies !final(w)@.admits(v) by {
        let after = (*w)@.with(v);
        let top = after.highest->0;
        if v < top && top - v <= after.width {
            assert(top - v <= REPLAY_WIDTH_MAX);
            assert(after.seen.contains(v));
        }
    }
}

/// A counter only ever goes up, by one, and has nowhere to go from its last value.
pub proof fn law_counter_goes_up(v: u32)
    ensures
        forall|c: InvocationCounter|
            #![trigger call_ensures(InvocationCounter::new, (v,), c)]
            call_ensures(InvocationCounter::new, (v,), c) ==> c@ == v,
        forall|c: &mut InvocationCounter, r: Result<u32>|
            #![trigger call_ensures(InvocationCounter::next, (c,), r)]
            call_ensures(InvocationCounter::next, (c,), r) ==> {
                &&& r is Ok <==> (*c)@ < u32::MAX
                &&& r is Ok ==> r->Ok_0 == (*c)@ + 1 && final(c)@ == r->Ok_0
                &&& r is Err ==> final(c)@ == (*c)@
            },
{
}

/// A key that was wrapped and is then unwrapped under the same key comes back as it was; the
/// wrapped form is eight bytes longer, and neither touches the rest of its buffer.
pub proof fn law_wrapped_key_comes_back<R: RandomSource>(
    p: &RustCryptoProvider<R>,
    kek: KeyRef<'_>,
    key: &[u8],
    wrapped: &[u8],
)
    ensures
        forall|out: &mut [u8], back: &mut [u8], n: usize, r: Result<usize>|
            #![trigger call_ensures(<RustCryptoProvider<R> as CryptoProvider>::key_wrap, (p, kek, key, out), Ok::<usize, Error>(n)), call_ensures(<RustCryptoProvider<R> as CryptoProvider>::key_unwrap, (p, kek, wrapped, back), r)]
            call_ensures(
                <RustCryptoProvider<R> as CryptoProvider>::key_wrap,
                (p, kek, key, out),
                Ok::<usize, Error>(n),
            ) && wrapped@ == final(out)@.take(n as int) && call_ensures(
                <RustCryptoProvider<R> as CryptoProvider>::key_unwrap,
                (p, kek, wrapped, back),
                r,
            ) && (*back)@.len() >= key@.len() ==> {
                &&& n == key@.len() + 8
                &&& final(out)@.skip(n as int) == (*out)@.skip(n as int)
                &&& r == Ok::<usize, Error>(key@.len() as usize)
                &&& final(back)@.take(key@.len() as int) == key@
                &&& final(back)@.skip(key@.len() as int) == (*back)@.skip(key@.len() as int)
            },
{
    assert forall|out: &mut [u8], back: &mut [u8], n: usize, r: Result<usize>|
        #![trigger call_ensures(<RustCryptoProvider<R> as CryptoProvider>::key_wrap, (p, kek, key, out), Ok::<usize, Error>(n)), call_ensures(<RustCryptoProvider<R> as CryptoProvider>::key_unwrap, (p, kek, wrapped, back), r)]
        call_ensures(
            <RustCryptoProvider<R> as CryptoProvider>::key_wrap,
            (p, kek, key, out),
            Ok::<usize, Error>(n),
        ) && wrapped@ == final(out)@.take(n as int) && call_ensures(
            <RustCryptoProvider<R> as CryptoProvider>::key_unwrap,
            (p, kek, wrapped, back),
            r,
        ) && (*back)@.len() >= key@.len() implies {
        &&& n == key@.len() + 8
        &&& final(out)@.skip(n as int) == (*out)@.skip(n as int)
        &&& r == Ok::<usize, Error>(key@.len() as usize)
        &&& final(back)@.take(key@.len() as int) == key@
        &&& final(back)@.skip(key@.len() as int) == (*back)@.skip(key@.len() as int)
    } by {
        let k = p.key(kek@)->Ok_0;
        assert(final(out)@.len() == (*out)@.len());
        assert(wrapped@.len() == n);
        assert(kw128_unwrapped(k, wrapped@) == Some(key@));
        assert(final(out)@.skip(n as int) =~= (*out)@.skip(n as int));
        assert(final(back)@.take(key@.len() as int) =~= key@);
        assert(final(back)@.skip(key@.len() as int) =~= (*back)@.skip(key@.len() as int));
    }
}

/// How keys and titles are taken and shown: by their bytes, at the lengths that they can have;
/// a key shows nothing of itself, whatever it holds, and a ring only which of its places are
/// taken.
pub proof fn law_keys_are_taken_and_not_shown(bytes: &[u8], a: &KeyRing, b: &KeyRing)
    ensures
        forall|r: Result<SystemTitle>|
            #![trigger call_ensures(SystemTitle::from_slice, (bytes,), r)]
            call_ensures(SystemTitle::from_slice, (bytes,), r) ==> (r is Ok <==> bytes@.len() == 8)
                && (r is Ok ==> r->Ok_0@ == bytes@),
        forall|r: Result<Key>|
            #![trigger call_ensures(Key::from_slice, (bytes,), r)]
            call_ensures(Key::from_slice, (bytes,), r) ==> (r is Ok <==> bytes@.len() == 16
                || bytes@.len() == 32) && (r is Ok ==> r->Ok_0@ == bytes@),
        forall|j: &Key, k: &Key, s: String, t: String|
            #![trigger call_ensures(Key::to_debug, (j,), s), call_ensures(Key::to_debug, (k,), t)]
            call_ensures(Key::to_debug, (j,), s) && call_ensures(Key::to_debug, (k,), t) ==> s@
                == t@,
        forall|j: &Secret, k: &Secret, s: String, t: String|
            #![trigger call_ensures(Secret::to_debug, (j,), s), call_ensures(Secret::to_debug, (k,), t)]
            call_ensures(Secret::to_debug, (j,), s) && call_ensures(Secret::to_debug, (k,), t)
                ==> s@ == t@,
        forall|s: String, t: String|
            #![trigger call_ensures(KeyRing::to_debug, (a,), s), call_ensures(KeyRing::to_debug, (b,), t)]
            call_ensures(KeyRing::to_debug, (a,), s) && call_ensures(KeyRing::to_debug, (b,), t)
                && a@.dom() == b@.dom() ==> s@ == t@,
{
    if a@.dom() == b@.dom() {
        assert(a@.dom().contains(KeyUsage::GlobalUnicastEncryption) == b@.dom().contains(
            KeyUsage::GlobalUnicastEncryption,
        ));
        assert(a@.dom().contains(KeyUsage::GlobalBroadcastEncryption) == b@.dom().contains(
            KeyUsage::GlobalBroadcastEncryption,
        ));
        assert(a@.dom().contains(KeyUsage::Authentication) == b@.dom().contains(
            KeyUsage::Authentication,
        ));
        assert(a@.dom().contains(KeyUsage::KeyEncrypting) == b@.dom().contains(
            KeyUsage::KeyEncrypting,
        ));
        assert(a@.dom().contains(KeyUsage::Dedicated) == b@.dom().contains(KeyUsage::Dedicated));
    }
}

/// A title shows as two digits of each of its bytes, the upper half first; and its maker is
/// its first three bytes where they are letters that can be shown.
pub proof fn law_title_shows_its_bytes(t: SystemTitle, b: Seq<u8>, i: int)
    ensures
        title_text(b).len() == 2 * b.len(),
        0 <= i < b.len() ==> title_text(b)[2 * i] == upper_digit_char((b[i] / 16) as nat)
            && title_text(b)[2 * i + 1] == upper_digit_char((b[i] % 16) as nat),
        forall|r: Option<&str>|
            #![trigger call_ensures(SystemTitle::manufacturer, (&t,), r)]
            call_ensures(SystemTitle::manufacturer, (&t,), r) ==> {
                &&& r is Some <==> 0x20 <= t@[0] < 0x7F && 0x20 <= t@[1] < 0x7F && 0x20 <= t@[2]
                    < 0x7F
                &&& r is Some ==> r->0.spec_bytes() == seq![t@[0], t@[1], t@[2]]
            },
    decreases b.len(),
{
    if b.len() > 0 {
        let rest = b.drop_last();
        law_title_shows_its_bytes(t, rest, i);
        if 0 <= i < rest.len() {
            assert(rest[i] == b[i]);
        }
    }
    assert(t@.take(3) =~= seq![t@[0], t@[1], t@[2]]);
}

/// A suite has its number and no other number has a suite; its keys are sixteen bytes long, and
/// thirty-two in the last. No protection is neither; full protection is both, under the global
/// key. Two byte strings are the same where all their bytes are.
pub proof fn law_suites_and_policies(v: u8, suite: SecuritySuite, a: &[u8], b: &[u8])
    ensures
        suite_of(v) is Ok <==> v <= 2,
        suite_of(v) matches Ok(s) ==> number(s) == v,
        suite.key_len() == if number(suite) == 2 {
            32usize
        } else {
            16usize
        },
        !SecurityPolicy::NONE().authenticated && !SecurityPolicy::NONE().encrypted,
        SecurityPolicy::NONE().key_set is GlobalUnicast,
        ({
            let p = SecurityPolicy::authenticated_encrypted(suite);
            p.authenticated && p.encrypted && p.suite == suite && p.key_set is GlobalUnicast
        }),
        forall|r: bool|
            #![trigger call_ensures(constant_time_eq, (a, b), r)]
            call_ensures(constant_time_eq, (a, b), r) ==> (r <==> a@.len() == b@.len() && forall|
                i: int,
            |
                0 <= i < a@.len() ==> a@[i] == b@[i]),
        forall|p: SecurityPolicy, c: SecurityControl, r: Result<()>|
            #![trigger call_ensures(SecurityPolicy::check_received, (p, c), r)]
            call_ensures(SecurityPolicy::check_received, (p, c), r) ==> (r is Ok <==> p.refusal(
                c,
            ) is None),
{
    if a@.len() == b@.len() && (forall|i: int| 0 <= i < a@.len() ==> a@[i] == b@[i]) {
        assert(a@ =~= b@);
    }
}

} // verus!
