//! Whom a server associates with, what it agrees to, and what it says of it.

use vstd::prelude::*;

use super::store::ObjectStore;
use crate::security::CryptoProvider;
#[allow(unused_imports)]
use super::association::StepV;
#[allow(unused_imports)]
use super::model::{exception_v, ExchangeV, ServerV};
#[allow(unused_imports)]
use super::store::{noted, AuditEvent};
#[allow(unused_imports)]
use super::{Server, ServerState};
#[allow(unused_imports)]
use crate::acse::{
    Aarq, AarqV, ApplicationContext, AuthMechanism, Diagnostic, Referencing, Rlre, Rlrq,
    UserDiagnostic,
};
#[allow(unused_imports)]
use crate::axdr::data::DataV;
#[allow(unused_imports)]
use crate::bytes::be_bytes;
#[allow(unused_imports)]
use crate::codec::{whole, Cursor, Decode, Encode, Error, ErrorKind, Result};
#[allow(unused_imports)]
use crate::security::keys::SystemTitle;
#[allow(unused_imports)]
use crate::security::protect::{hls_check_of, hls_reply_of};
#[allow(unused_imports)]
use crate::security::wrap::{unwrapped_by, wrapped_by, OutgoingV};
#[allow(unused_imports)]
use crate::security::{draw, draws, forget_key, forgets, install_key, installs, Key};
#[allow(unused_imports)]
use crate::xdlms::apdu::ApduV;
#[allow(unused_imports)]
use crate::xdlms::ids::InvokeId;
#[allow(unused_imports)]
use crate::xdlms::initiate::{Conformance, InitiateRequestV};
#[allow(unused_imports)]
use crate::xdlms::result::{ActionResult, ServiceError, StateError};
#[allow(unused_imports)]
use crate::xdlms::service::{
    ActionResponseV, ActionResponseWithOptionalDataV, GetDataResultV, MethodDescriptorV,
};
#[allow(unused_imports)]
use crate::xdlms::tag::{tag_of, ApduTag};

verus! {

/// Whether an exchange opened an association, or got as far as the challenges: something was
/// said, and the server is in one of the two states.
pub open spec fn opened<P>(x: ExchangeV<P>) -> bool {
    x.r is Ok && (x.next.state is Associated || x.next.state is AwaitingHlsReply)
}

/// The flags in common are the flags of both and no others.
pub proof fn law_negotiated_is_in_common(a: Conformance, b: Conformance, flag: u32)
    ensures
        a.negotiate(b).0 & flag == flag <==> a.0 & flag == flag && b.0 & flag == flag,
        a.negotiate(b) == b.negotiate(a),
        a.negotiate(b).contains(Conformance(flag)) <==> a.contains(Conformance(flag))
            && b.contains(Conformance(flag)),
{
    let x = a.0;
    let y = b.0;
    assert({
        &&& (x & y) & flag == flag <==> x & flag == flag && y & flag == flag
        &&& x & y == y & x
    }) by (bit_vector);
}

/// What is in force in an association is what the client proposed and the server offers, and
/// nothing else; with no proposal it is nothing. The server sends no more at once than the
/// client has said it receives, and is under its own policy, or under the same with the key
/// that the client delivered.
pub proof fn law_agreed_is_proposed_and_offered<P: CryptoProvider, S: ObjectStore>(
    s: ServerV<P>,
    aarq: AarqV,
    forgotten: P,
    keyed: Option<P>,
    challenge: Result<Seq<u8>>,
    store: S,
    x: ExchangeV<P>,
    after: S,
    flag: u32,
)
    requires
        s.associates(aarq, forgotten, keyed, challenge, store, x, after),
        opened(x),
    ensures
        x.next.config == s.config,
        x.next.negotiated.0 & flag == flag ==> s.config.conformance.0 & flag == flag,
        s.cleared(forgotten).admits(aarq) matches StepV::Go(a) && match a.initiate_of(aarq) {
            None => x.next.negotiated.0 == 0 && x.next.client_max == s.config.max_pdu_size,
            Some(init) => {
                &&& x.next.negotiated.0 & flag == flag <==> init.proposed_conformance.0 & flag
                    == flag && s.config.conformance.0 & flag == flag
                &&& x.next.client_max == (if init.client_max_receive_pdu_size == 0 {
                    s.config.max_pdu_size
                } else {
                    init.client_max_receive_pdu_size
                })
                &&& match init.dedicated_key {
                    None => x.next.crypto == forgotten && !x.next.policy.dedicated(),
                    Some(k) => (k.len() == 16 || k.len() == 32) && keyed == Some(x.next.crypto)
                        && x.next.policy.dedicated(),
                }
            },
        },
        x.next.transfer is Idle,
{
    let c = s.cleared(forgotten);
    let mine = s.config.conformance.0;
    assert(forall|p: u32| (mine & p) & flag == flag <==> p & flag == flag && mine & flag == flag)
        by (bit_vector);
    assert(0u32 & flag == flag ==> mine & flag == flag) by (bit_vector);
    assert(mine & 0 == 0) by (bit_vector);
    if let StepV::Go(a) = c.admits(aarq) {
        assert(a.crypto == forgotten && a.config == s.config);
        assert(!a.policy.dedicated());
    }
}

/// Where the request is in the clear, what the client proposes is what stands in its user
/// information behind the tag.
pub proof fn law_proposal_is_in_the_request<P: CryptoProvider>(
    s: ServerV<P>,
    aarq: AarqV,
    info: Seq<u8>,
    init: InitiateRequestV,
    rest: Cursor,
)
    requires
        s.config.security.is_none(),
        aarq.user_information == Some(info),
        0 < info.len() <= 256,
        info[0] == 1,
        InitiateRequestV::p(Cursor::start(info).adv(1)) == Ok::<(InitiateRequestV, Cursor), Error>(
            (init, rest),
        ),
    ensures
        s.initiate_of(aarq) == Some(init),
{
    reveal(unwrapped_by);
    reveal(tag_of);
    reveal(crate::xdlms::tag::plain_of);
}

/// Whom a server takes: one that names objects as it does, is ciphered where it is, proves
/// itself by the mechanism that it is set up for, has a title of eight bytes if any, and,
/// where that is asked for, gives the password.
pub proof fn law_who_is_admitted<P: CryptoProvider>(s: ServerV<P>, aarq: AarqV)
    ensures
        ({
            let context = match aarq.application_context {
                Some(c) => c,
                None => ApplicationContext::LogicalName,
            };
            let mechanism = match aarq.mechanism_name {
                Some(m) => m,
                None => AuthMechanism::Lowest,
            };
            let protected = s.config.security.authenticated || s.config.security.encrypted;
            let named = match s.config.referencing {
                Referencing::LogicalName => if protected {
                    context is LogicalNameCiphered
                } else {
                    context is LogicalName
                },
                Referencing::ShortName => if protected {
                    context is ShortNameCiphered
                } else {
                    context is ShortName
                },
            };
            let wanted = match s.config.password {
                Some(p) => p@,
                None => Seq::empty(),
            };
            let given = match aarq.calling_authentication_value {
                Some(v) => v,
                None => Seq::empty(),
            };
            let title = aarq.calling_ap_title matches Some(t) ==> t.len() == 8;
            let known = mechanism is Low ==> given == wanted;
            match s.admits(aarq) {
                StepV::Go(_) => named && mechanism == s.config.mechanism && title && known,
                StepV::Refuse(_, d) => if !named {
                    d is ApplicationContextNameNotSupported
                } else if mechanism != s.config.mechanism {
                    if s.config.mechanism is Lowest {
                        d is AuthenticationMechanismNameNotRecognised
                    } else {
                        d is AuthenticationMechanismNameRequired
                    }
                } else {
                    title && !known && d is AuthenticationFailure
                },
                StepV::Fail(_, e) => named && mechanism == s.config.mechanism && !title && e == (
                Error { kind: ErrorKind::InvalidLength, offset: 0 }),
                StepV::Replay(_) => false,
            }
        }),
        s.admits(aarq) matches StepV::Go(a) ==> {
            &&& aarq.calling_ap_title matches Some(t) ==> a.client_title == Some(t) && a.owner
                == Some(t)
            &&& aarq.calling_ap_title is None || s.owner == aarq.calling_ap_title ==> a.window
                == s.window && a.owner == s.owner
            &&& a.window != s.window ==> a.window.highest is None && a.window.seen.is_empty()
        },
{
}

/// What the answer to an association says: that it is accepted, in the context that was asked
/// for, by whom, under which mechanism, with the challenge where one is due, and what was
/// agreed.
pub proof fn law_acceptance_says<P: CryptoProvider>(s: ServerV<P>, aarq: AarqV, info: Seq<u8>)
    ensures
        s.acceptance(aarq, info).result is Accepted,
        s.acceptance(aarq, info).diagnostic == Diagnostic::User(UserDiagnostic::Null),
        s.acceptance(aarq, info).user_information == Some(info),
        aarq.application_context is Some ==> s.acceptance(aarq, info).application_context
            == aarq.application_context,
        s.config.system_title matches Some(t) ==> s.acceptance(aarq, info).responding_ap_title
            == Some(t@),
        s.config.system_title is None ==> s.acceptance(aarq, info).responding_ap_title is None,
        aarq.mechanism_name is Some && !(aarq.mechanism_name->0 is Lowest) ==> {
            &&& s.acceptance(aarq, info).mechanism_name == aarq.mechanism_name
            &&& s.acceptance(aarq, info).responder_acse_requirements
            &&& s.acceptance(aarq, info).responding_authentication_value
                == if aarq.mechanism_name->0 is Low {
                None
            } else {
                Some(s.server_challenge)
            }
        },
{
}

/// What was agreed goes out behind the tag of the answer: version six, the flags in common,
/// the most that the server receives, and how objects are named.
pub proof fn law_offer_bytes<P: CryptoProvider>(s: ServerV<P>)
    ensures
        s.offer_plain() == seq![8u8, 0u8, 6u8, 0x5Fu8, 0x1Fu8, 4u8, 0u8] + be_bytes(
            s.negotiated.0 as nat,
            3,
        ) + be_bytes(s.config.max_pdu_size as nat, 2) + be_bytes(
            if s.config.referencing is LogicalName {
                0x0007nat
            } else {
                0xFA00nat
            },
            2,
        ),
        !s.ciphered ==> s.answer_information() == (Ok::<Seq<u8>, Error>(s.offer_plain()), s),
{
    reveal(tag_of);
    reveal(ApduTag::code);
    let qos = crate::xdlms::initiate::enc_opt_i8(None::<i8>);
    assert(qos =~= seq![0u8]);
    let max = be_bytes(s.config.max_pdu_size as nat, 2);
    let flags = be_bytes(s.negotiated.0 as nat, 3);
    assert(s.offer_plain() =~= seq![8u8, 0u8, 6u8, 0x5Fu8, 0x1Fu8, 4u8, 0u8] + flags + max
        + be_bytes(
        if s.config.referencing is LogicalName {
            0x0007nat
        } else {
            0xFA00nat
        },
        2,
    ));
}

/// What the answer to a refused association says: that it is refused for good, in the context
/// that was asked for, by whom, and why. The association is then closed.
pub proof fn law_refusal_says<P: CryptoProvider, S: ObjectStore>(
    s: ServerV<P>,
    context: ApplicationContext,
    d: UserDiagnostic,
    x: ExchangeV<P>,
)
    requires
        s.refuses(context, d, x),
    ensures
        x.next.state is Closed,
        s.refusal(context, d).result is RejectedPermanent,
        s.refusal(context, d).diagnostic == Diagnostic::User(d),
        s.refusal(context, d).application_context == Some(context),
        s.refusal(context, d).user_information is None,
        s.refusal(context, d).responding_authentication_value is None,
        s.config.system_title matches Some(t) ==> s.refusal(context, d).responding_ap_title
            == Some(t@),
        x.r matches Ok(n) ==> x.after.take(n as int) == s.refusal(context, d).enc(),
{
    if let Ok(n) = x.r {
        assert(x.after.take(n as int) =~= s.refusal(context, d).enc());
    }
}

/// A client that is refused at its first word does not get in, and the store is told why: the
/// answer is a refusal with that reason, and the association is closed.
pub proof fn law_refused_is_closed<P: CryptoProvider, S: ObjectStore>(
    s: ServerV<P>,
    aarq: AarqV,
    forgotten: P,
    keyed: Option<P>,
    challenge: Result<Seq<u8>>,
    store: S,
    x: ExchangeV<P>,
    after: S,
    d: UserDiagnostic,
)
    requires
        s.associates(aarq, forgotten, keyed, challenge, store, x, after),
        s.cleared(forgotten).admits(aarq) matches StepV::Refuse(_, why) && why == d,
    ensures
        x.next.state is Closed,
        noted(store, AuditEvent::AssociationRefused { diagnostic: d }, after),
        aarq.application_context matches Some(c) ==> (x.r matches Ok(n) ==> x.after.take(n as int)
            == ServerV { ciphered: c.is_ciphered(), ..x.next }.refusal(c, d).enc()),
{
    if let Ok(n) = x.r {
        if let Some(c) = aarq.application_context {
            let r = ServerV { ciphered: c.is_ciphered(), ..x.next }.refusal(c, d);
            assert(x.after.take(n as int) =~= r.enc());
        }
    }
}

/// A client that gets in is told so, and so is the store: by the lowest and the low security
/// it is associated at once, and by a high one it has to answer a challenge first, for which
/// it has to have sent one of its own.
pub proof fn law_admitted_is_told<P: CryptoProvider, S: ObjectStore>(
    s: ServerV<P>,
    aarq: AarqV,
    forgotten: P,
    keyed: Option<P>,
    challenge: Result<Seq<u8>>,
    store: S,
    x: ExchangeV<P>,
    after: S,
)
    requires
        s.associates(aarq, forgotten, keyed, challenge, store, x, after),
        opened(x),
        x.before.len() <= usize::MAX,
    ensures
        ({
            let m = match aarq.mechanism_name {
                Some(m) => m,
                None => AuthMechanism::Lowest,
            };
            &&& m == s.config.mechanism
            &&& x.next.state is Associated == (m is Lowest || m is Low)
            &&& x.next.state is AwaitingHlsReply ==> {
                &&& m is HighGmac
                &&& Ok::<Seq<u8>, Error>(x.next.server_challenge) == challenge
                &&& aarq.calling_authentication_value == Some(x.next.client_challenge)
                &&& x.next.client_challenge.len() <= 64
            }
            &&& noted(
                store,
                AuditEvent::Associated { mechanism: m, ciphered: x.next.ciphered },
                after,
            )
            &&& x.next.ciphered == (s.config.security.authenticated || s.config.security.encrypted)
            &&& exists|info: Seq<u8>|
                x.after.take(x.r->Ok_0 as int) == #[trigger] x.next.acceptance(aarq, info).enc()
                    && (!x.next.ciphered ==> info == x.next.offer_plain())
        }),
{
    let c = s.cleared(forgotten);
    if let StepV::Go(g) = c.decides(aarq, keyed) {
        let h = if crate::server::association::mechanism_of(aarq).is_high_level() {
            ServerV {
                server_challenge: challenge->Ok_0,
                state: ServerState::AwaitingHlsReply,
                ..g
            }
        } else {
            g
        };
        let (info, next) = h.answer_information();
        let aare = next.acceptance(aarq, info->Ok_0);
        assert(next == x.next);
        assert(x.after.take(x.r->Ok_0 as int) =~= aare.enc());
        assert(x.after.take(x.r->Ok_0 as int) == x.next.acceptance(aarq, info->Ok_0).enc());
    }
}

/// A client that has to answer a challenge is associated only by the right answer: the tag
/// over the server's challenge, under the client's own title. It is then given the answer to
/// its own challenge, under the server's title and the next counter. A wrong answer closes
/// the association, and the client is told that it is denied; and nothing but that one method
/// is possible before.
pub proof fn law_client_must_prove_itself<P: CryptoProvider, S: ObjectStore>(
    s: ServerV<P>,
    store: S,
    invoke_id: InvokeId,
    d: MethodDescriptorV,
    parameters: Option<DataV>,
    x: ExchangeV<P>,
    after: S,
)
    requires
        s.serves(
            store,
            ApduV::ActionRequest(
                crate::xdlms::service::ActionRequestV::Normal {
                    invoke_id,
                    descriptor: d,
                    parameters,
                },
            ),
            x,
            after,
        ),
        s.state is AwaitingHlsReply,
    ensures
        after == store,
        d.class_id != 15 || d.method_id != 1 ==> s.excepts(
            StateError::ServiceNotAllowed,
            ServiceError::OperationNotPossible,
            x,
        ),
        x.next.state is Associated ==> d.class_id == 15 && d.method_id == 1 && exists|
            given: Seq<u8>,
            reply: Seq<u8>,
        |
            #![trigger hls_check_of(&s.crypto, s.policy, s.client_title->0, s.crypto.auth_bytes()->0, s.server_challenge, given), answer_v(invoke_id, reply)]
            {
                &&& parameters == Some(DataV::OctetString(given)) || parameters == Some(
                    DataV::VisibleString(given),
                ) || parameters == Some(DataV::Utf8String(given))
                &&& s.client_title is Some
                &&& hls_check_of(
                    &s.crypto,
                    s.policy,
                    s.client_title->0,
                    s.crypto.auth_bytes()->0,
                    s.server_challenge,
                    given,
                ) == Ok::<(), Error>(())
                &&& s.config.system_title is Some
                &&& hls_reply_of(
                    &s.crypto,
                    s.policy,
                    s.config.system_title->0@,
                    (s.counter + 1) as u32,
                    s.crypto.auth_bytes()->0,
                    s.client_challenge,
                ) == Ok::<Seq<u8>, Error>(reply)
                &&& proved(s).sends(answer_v(invoke_id, reply), x)
            },
        parameters matches Some(DataV::OctetString(given)) && d.class_id == 15 && d.method_id == 1
            && s.client_title is Some && s.crypto.auth_bytes() is Some && hls_check_of(
            &s.crypto,
            s.policy,
            s.client_title->0,
            s.crypto.auth_bytes()->0,
            s.server_challenge,
            given,
        ) is Err ==> {
            &&& x.next.state is Closed
            &&& in_state(s, ServerState::Closed).sends(
                ApduV::ActionResponse(
                    ActionResponseV::Normal {
                        invoke_id,
                        response: ActionResponseWithOptionalDataV {
                            result: ActionResult::ReadWriteDenied,
                            return_parameters: None,
                        },
                    },
                ),
                x,
            )
        },
{
    if x.next.state is Associated {
        let given = parameters->0.string()->0;
        let reply = hls_reply_of(
            &s.crypto,
            s.policy,
            s.config.system_title->0@,
            (s.counter + 1) as u32,
            s.crypto.auth_bytes()->0,
            s.client_challenge,
        )->Ok_0;
        assert(answer_v(invoke_id, reply) is ActionResponse);
        match hls_check_of(
            &s.crypto,
            s.policy,
            s.client_title->0,
            s.crypto.auth_bytes()->0,
            s.server_challenge,
            given,
        ) {
            Ok(u) => {
                assert(u == ());
            },
            Err(_) => {},
        }
    }
}

/// A server in another state.
pub open spec fn in_state<P>(s: ServerV<P>, state: ServerState) -> ServerV<P> {
    ServerV { state, ..s }
}

/// A server that the client has proved itself to: it has spent a counter on its own answer.
pub open spec fn proved<P>(s: ServerV<P>) -> ServerV<P> {
    ServerV { state: ServerState::Associated, counter: (s.counter + 1) as u32, ..s }
}

/// The answer to a challenge, as a method returns it.
pub open spec fn answer_v(invoke_id: InvokeId, reply: Seq<u8>) -> ApduV {
    ApduV::ActionResponse(
        ActionResponseV::Normal {
            invoke_id,
            response: ActionResponseWithOptionalDataV {
                result: ActionResult::Success,
                return_parameters: Some(GetDataResultV::Data(DataV::OctetString(reply))),
            },
        },
    )
}

/// A release closes the association, in whatever state it is: the client is answered with its
/// own reason, the store is told, and the key of the association is forgotten.
pub proof fn law_release_closes<P: CryptoProvider, S: ObjectStore>(
    s: ServerV<P>,
    apdu: Seq<u8>,
    store: S,
    x: ExchangeV<P>,
    after: S,
)
    requires
        s.handles(store, apdu, x, after),
        0 < apdu.len() <= s.config.max_pdu_size,
        apdu[0] == 0x62,
        whole(Rlrq::parse(Cursor::start(apdu))) is Ok,
    ensures
        x.next.state is Closed,
        !x.next.policy.dedicated(),
        forgets(s.crypto, x.next.crypto),
        noted(store, AuditEvent::Released, after),
        x.r matches Ok(n) ==> x.after.take(n as int) == (Rlre {
            reason: whole(Rlrq::parse(Cursor::start(apdu)))->Ok_0.reason,
            user_information: None,
        }).enc(),
{
    reveal(tag_of);
    if let Ok(n) = x.r {
        assert(x.after.take(n as int) =~= (Rlre {
            reason: whole(Rlrq::parse(Cursor::start(apdu)))->Ok_0.reason,
            user_information: None,
        }).enc());
    }
}

/// A reply in the clear goes out as it is: exactly where it fits what it is built in, the
/// buffer and what the client receives. A protected one goes out under the next counter and
/// the server's own title, in whatever protection is in force.
pub proof fn law_reply_goes_out<P: CryptoProvider>(s: ServerV<P>, apdu: ApduV, x: ExchangeV<P>)
    requires
        s.sends(apdu, x),
        apdu.fits(),
        x.before.len() <= usize::MAX,
    ensures
        s.config.security.is_none() ==> {
            &&& x.next == s
            &&& x.r is Ok <==> apdu.enc().len() <= x.n && apdu.enc().len() <= s.client_max
                && apdu.enc().len() <= x.before.len()
            &&& x.r is Err ==> x.after == x.before
            &&& x.r matches Ok(n) ==> n == apdu.enc().len() && x.after.take(n as int) == apdu.enc()
                && x.after.skip(n as int) == x.before.skip(n as int)
        },
        !s.config.security.is_none() && x.r is Ok ==> {
            &&& x.next.counter == s.counter + 1
            &&& x.r->Ok_0 <= s.client_max
            &&& wrapped_by(
                &s.crypto,
                (OutgoingV {
                    system_title: s.config.system_title->0@,
                    invocation_counter: x.next.counter,
                    auth_key: s.crypto.auth_bytes(),
                    policy: s.policy,
                    general_allowed: s.negotiated.0 & 0x40_0000u32 == 0x40_0000u32,
                }),
                apdu.enc(),
                x.before.len(),
            ) == Ok::<Seq<u8>, Error>(x.after.take(x.r->Ok_0 as int))
        },
{
    if let Ok(n) = x.r {
        if s.config.security.is_none() {
            assert(x.after.take(n as int) =~= apdu.enc());
            assert(x.after.skip(n as int) =~= x.before.skip(n as int));
        } else {
            let w = wrapped_by(&s.crypto, s.outgoing(), apdu.enc(), x.before.len())->Ok_0;
            assert(x.after.take(n as int) =~= w);
        }
    }
}

/// A refusal of a request as such is three bytes: its tag, and the two codes.
pub proof fn law_refusal_bytes(a: StateError, b: ServiceError, expected: u32)
    ensures
        exception_v(a, b).enc() == seq![0xD8u8, a.as_u8(), b.as_u8()],
        super::model::counter_exception_v(expected).enc() == seq![0xD8u8, 1u8, 6u8] + be_bytes(
            expected as nat,
            4,
        ),
        StateError::ServiceNotAllowed.as_u8() == 1,
        StateError::ServiceUnknown.as_u8() == 2,
        ServiceError::OperationNotPossible.as_u8() == 1,
        ServiceError::ServiceNotSupported.as_u8() == 2,
        ServiceError::OtherReason.as_u8() == 3,
        ServiceError::PduTooLong.as_u8() == 4,
        ServiceError::DecipheringError.as_u8() == 5,
        ServiceError::InvocationCounterError.as_u8() == 6,
{
    reveal(ApduV::enc);
    assert(exception_v(a, b).enc() =~= seq![0xD8u8, a.as_u8(), b.as_u8()]);
    assert(super::model::counter_exception_v(expected).enc() =~= seq![0xD8u8, 1u8, 6u8] + be_bytes(
        expected as nat,
        4,
    ));
}

/// What reaches an open association: an APDU is opened under the policy in force and served as
/// what it opens to. One that was seen before is answered with the counter that is expected
/// next, one more than the highest; one that cannot be opened is refused as undecipherable;
/// and one that is longer than the server receives is not looked at.
#[verifier::rlimit(60)]
pub proof fn law_apdu_is_opened_and_served<P: CryptoProvider, S: ObjectStore>(
    s: ServerV<P>,
    store: S,
    apdu: Seq<u8>,
    x: ExchangeV<P>,
    after: S,
)
    requires
        s.handles(store, apdu, x, after),
        s.state is Associated,
    ensures
        apdu.len() > s.config.max_pdu_size ==> after == store && s.excepts(
            StateError::ServiceNotAllowed,
            ServiceError::PduTooLong,
            x,
        ),
        0 < apdu.len() <= s.config.max_pdu_size && tag_of(apdu[0]) is Some && apdu[0] != 0x60
            && apdu[0] != 0x62 ==> {
            let (opened, window) = unwrapped_by(
                &s.crypto,
                s.incoming(s.policy, seq![ApduTag::Aarq, ApduTag::ReleaseRequest]),
                s.window,
                apdu,
                x.n,
            );
            match opened {
                Ok(plain) => match whole(ApduV::p(Cursor::start(plain))) {
                    Ok(request) => with_window(s, window).serves(store, request, x, after),
                    Err(_) => after == store && with_window(s, window).excepts(
                        StateError::ServiceUnknown,
                        ServiceError::ServiceNotSupported,
                        x,
                    ),
                },
                Err(e) => after == store && if e.kind is Replay {
                    with_window(s, window).writes(
                        seq![0xD8u8, 1u8, 6u8] + be_bytes(
                            match window.highest {
                                None => 0nat,
                                Some(h) => if h == u32::MAX {
                                    h as nat
                                } else {
                                    (h + 1) as nat
                                },
                            },
                            4,
                        ),
                        true,
                        x,
                    )
                } else if e.kind is BufferTooSmall {
                    with_window(s, window).excepts(
                        StateError::ServiceNotAllowed,
                        ServiceError::PduTooLong,
                        x,
                    )
                } else {
                    with_window(s, window).excepts(
                        StateError::ServiceNotAllowed,
                        ServiceError::DecipheringError,
                        x,
                    )
                },
            }
        },
{
    let (opened, window) = unwrapped_by(
        &s.crypto,
        s.incoming(s.policy, super::model::plain_from_client()),
        s.window,
        apdu,
        x.n,
    );
    law_refusal_bytes(
        StateError::ServiceNotAllowed,
        ServiceError::PduTooLong,
        super::model::expected_next(window),
    );
    assert(super::model::counter_exception_v(super::model::expected_next(window)).fits()) by {
        reveal(ApduV::fits);
    }
    if 0 < apdu.len() && apdu.len() <= s.config.max_pdu_size && tag_of(apdu[0]) is Some && apdu[0]
        != 0x60 && apdu[0] != 0x62 {
        assert(tag_of(apdu[0]) != Some(ApduTag::Aarq) && tag_of(apdu[0]) != Some(
            ApduTag::ReleaseRequest,
        )) by {
            reveal(tag_of);
        }
        assert(s.receives(store, apdu, x, after));
        assert(with_window(s, window).answers(store, opened, x, after));
    }
}

/// A server whose window has moved.
pub open spec fn with_window<P>(s: ServerV<P>,
    window: crate::security::counter::WindowV) -> ServerV<
    P,
> {
    ServerV { window, ..s }
}

/// What is known of a message that comes in: who this end is, who the other is, the key that
/// it authenticates under, and what protection is asked for.
pub proof fn law_what_is_known_of_a_message<P: CryptoProvider>(
    s: ServerV<P>,
    policy: crate::security::protect::SecurityPolicy,
    allowed: Seq<ApduTag>,
)
    ensures
        s.incoming(policy, allowed).peer == s.client_title,
        s.incoming(policy, allowed).auth_key == s.crypto.auth_bytes(),
        s.incoming(policy, allowed).policy == policy,
        s.incoming(policy, allowed).plain_allowed == allowed,
        s.config.system_title matches Some(t) ==> s.incoming(policy, allowed).local == Some(t@),
        s.config.system_title is None ==> s.incoming(policy, allowed).local is None,
{
}

/// Whose counters a window holds: it is kept for a client that calls again, and another
/// client begins with one that remembers nothing and is as wide as the server is set up for,
/// up to sixty-three.
pub proof fn law_window_belongs_to_the_caller<P: CryptoProvider>(s: ServerV<P>, aarq: AarqV)
    requires
        s.admits(aarq) is Go,
        aarq.calling_ap_title is Some,
    ensures
        ({
            let a = s.admits(aarq)->Go_0;
            &&& s.owner == aarq.calling_ap_title ==> a.window == s.window
            &&& s.owner != aarq.calling_ap_title ==> {
                &&& a.window.highest is None
                &&& a.window.seen.is_empty()
                &&& a.window.width == if s.config.replay_window > 63 {
                    63
                } else {
                    s.config.replay_window
                }
            }
            &&& a.owner == aarq.calling_ap_title
            &&& a.client_title == aarq.calling_ap_title
        }),
{
}

/// A challenge is as long as the server is set up for, but no shorter than eight bytes and no
/// longer than sixty-four; and where one is due it is drawn with that length.
pub proof fn law_challenge_is_long_enough<P: CryptoProvider>(
    s: ServerV<P>,
    aarq: AarqV,
    keyed: Option<P>,
    challenge: Result<Seq<u8>>,
)
    ensures
        8 <= s.challenge_len() <= 64,
        8 <= s.config.challenge_len <= 64 ==> s.challenge_len() == s.config.challenge_len,
        s.config.challenge_len < 8 ==> s.challenge_len() == 8,
        s.config.challenge_len > 64 ==> s.challenge_len() == 64,
        s.drawn(aarq, keyed, challenge) ==> (s.decides(aarq, keyed) matches StepV::Go(g) ==> (
        aarq.mechanism_name matches Some(m) ==> (!(m is Lowest || m is Low) ==> draws(
            g.crypto,
            s.challenge_len(),
            challenge,
        )))),
{
}

/// A key of its own that a client delivers has to be a key, of sixteen bytes or thirty-two,
/// and the server has to be able to hold it: otherwise there is no association. One that is
/// held is used for everything after.
pub proof fn law_delivered_key_is_used<P: CryptoProvider>(
    s: ServerV<P>,
    init: InitiateRequestV,
    keyed: Option<P>,
)
    ensures
        init.dedicated_key matches Some(k) ==> {
            &&& k.len() != 16 && k.len() != 32 ==> s.initiated(init, keyed) == StepV::Fail(
                s,
                Error { kind: ErrorKind::InvalidLength, offset: 0 },
            )
            &&& (k.len() == 16 || k.len() == 32) && keyed is None ==> s.initiated(init, keyed)
                == StepV::Refuse(s, UserDiagnostic::NoReasonGiven)
            &&& (k.len() == 16 || k.len() == 32) && keyed is Some ==> (s.initiated(
                init,
                keyed,
            ) matches StepV::Go(n) && Some(n.crypto) == keyed && n.policy.dedicated())
            &&& (k.len() == 16 || k.len() == 32) && super::association::takes_key(
                s.crypto,
                init,
                keyed,
            ) ==> installs(s.crypto, k, keyed)
        },
        init.dedicated_key is None ==> (s.initiated(init, keyed) matches StepV::Go(n) && n.crypto
            == s.crypto && n.policy == s.policy),
{
}

/// A proposal that cannot be opened ends the association: one under a counter that was seen is
/// answered with the counter that is expected, and any other is refused as a failure to
/// authenticate.
pub proof fn law_proposal_must_open<P: CryptoProvider>(
    s: ServerV<P>,
    aarq: AarqV,
    keyed: Option<P>,
    info: Seq<u8>,
    e: Error,
)
    requires
        aarq.user_information == Some(info),
        unwrapped_by(
            &s.crypto,
            s.incoming(s.config.security.global(), seq![ApduTag::InitiateRequest]),
            s.window,
            info,
            256,
        ).0 == Err::<Seq<u8>, Error>(e),
    ensures
        e.kind is Replay ==> s.proposed(aarq, keyed) is Replay,
        !(e.kind is Replay) ==> (s.proposed(aarq, keyed) matches StepV::Refuse(_, d)
            && d is AuthenticationFailure),
{
}

/// What becomes of a client whose counter was seen: it is told the one that is expected, the
/// store is told that it failed to authenticate, and there is no association.
pub proof fn law_stale_counter_is_answered<P: CryptoProvider, S: ObjectStore>(
    s: ServerV<P>,
    aarq: AarqV,
    forgotten: P,
    keyed: Option<P>,
    challenge: Result<Seq<u8>>,
    store: S,
    x: ExchangeV<P>,
    after: S,
)
    requires
        s.associates(aarq, forgotten, keyed, challenge, store, x, after),
        s.cleared(forgotten).decides(aarq, keyed) is Replay,
    ensures
        x.next.state is Idle,
        noted(
            store,
            AuditEvent::AssociationRefused { diagnostic: UserDiagnostic::AuthenticationFailure },
            after,
        ),
        x.r matches Ok(n) ==> n == 7 && x.after.take(7) == seq![0xD8u8, 1u8, 6u8] + be_bytes(
            match x.next.window.highest {
                None => 0nat,
                Some(h) => if h == u32::MAX {
                    h as nat
                } else {
                    (h + 1) as nat
                },
            },
            4,
        ),
{
    let t = s.cleared(forgotten).decides(aarq, keyed)->Replay_0;
    let expected = super::model::expected_next(t.window);
    law_refusal_bytes(StateError::ServiceNotAllowed, ServiceError::OtherReason, expected);
    crate::bytes::lemma_be_bytes_len(expected as nat, 4);
    if x.r is Ok {
        assert(x.after.take(7) =~= super::model::counter_exception_v(expected).enc());
    }
}

/// High security other than by the tag that this server computes is refused, and one who
/// proposes it without a challenge, or with one that is too long, does not get in.
pub proof fn law_only_known_security_gets_in<P: CryptoProvider>(s: ServerV<P>, aarq: AarqV)
    ensures
        ({
            let m = match aarq.mechanism_name {
                Some(m) => m,
                None => AuthMechanism::Lowest,
            };
            match s.challenged(aarq) {
                StepV::Go(n) => if m is Lowest || m is Low {
                    n.state is Associated
                } else {
                    m is HighGmac && (aarq.calling_authentication_value matches Some(c) && c.len()
                        <= 64 && n.client_challenge == c)
                },
                StepV::Refuse(_, d) => !(m is Lowest || m is Low || m is HighGmac)
                    && d is AuthenticationMechanismNameNotRecognised,
                StepV::Fail(_, e) => m is HighGmac && if aarq.calling_authentication_value is None {
                    e.kind is UnexpectedMessage
                } else {
                    e.kind is InvalidLength
                },
                StepV::Replay(_) => false,
            }
        }),
{
}

/// What a server does with an APDU is what is stated of servers: nothing about its answer, its
/// state or its objects is left to the handler.
pub proof fn law_server_does_as_stated<S: ObjectStore, P: CryptoProvider, const N: usize>(
    apdu: &[u8],
)
    ensures
        forall|s: &mut Server<S, P, N>, out: &mut [u8], r: Result<usize>|
            #![trigger call_ensures(Server::<S, P, N>::handle, (s, apdu, out), r)]
            call_ensures(Server::<S, P, N>::handle, (s, apdu, out), r) ==> (*s)@.handles(
                (*s).objects(),
                apdu@,
                (ExchangeV {
                    n: N as nat,
                    before: (*out)@,
                    after: final(out)@,
                    next: final(s)@,
                    r,
                }),
                final(s).objects(),
            ),
{
}

/// A request to associate forgets the key of the last association first; what it delivers and
/// what is drawn for it are then part of how it is answered. One that does not parse changes
/// nothing.
pub proof fn law_aarq_is_answered<P: CryptoProvider, S: ObjectStore>(
    s: ServerV<P>,
    apdu: Seq<u8>,
    store: S,
    x: ExchangeV<P>,
    after: S,
)
    requires
        s.handles(store, apdu, x, after),
        0 < apdu.len() <= s.config.max_pdu_size,
        apdu[0] == 0x60,
    ensures
        match whole(Aarq::parse(Cursor::start(apdu))) {
            Err(e) => after == store && x.next == s && x.after == x.before && x.r == Err::<
                usize,
                Error,
            >(e),
            Ok(aarq) => exists|forgotten: P, keyed: Option<P>, challenge: Result<Seq<u8>>|
                {
                    &&& forgets(s.crypto, forgotten)
                    &&& s.cleared(forgotten).keys(aarq, keyed)
                    &&& s.cleared(forgotten).drawn(aarq, keyed, challenge)
                    &&& #[trigger] s.associates(
                        aarq,
                        forgotten,
                        keyed,
                        challenge,
                        store,
                        x,
                        after,
                    )
                },
        },
{
    assert(tag_of(apdu[0]) == Some(ApduTag::Aarq)) by {
        reveal(tag_of);
    }
}

/// A provider that forgets its key is told to, and one that is handed a key is handed that
/// one; and a challenge is what the provider's randomness fills in.
pub proof fn law_provider_is_asked<P: CryptoProvider>(
    before: P,
    after: P,
    key: Seq<u8>,
    keyed: Option<P>,
    len: nat,
    drawn: Seq<u8>,
)
    ensures
        forgets(before, after) ==> exists|m: &mut P|
            #![trigger call_ensures(P::clear_dedicated_key, (m,), ())]
            *m == before && *final(m) == after && call_ensures(P::clear_dedicated_key, (m,), ()),
        installs(before, key, keyed) ==> exists|m: &mut P, k: Key, r: Result<()>|
            #![trigger call_ensures(P::set_dedicated_key, (m, k), r)]
            *m == before && k@ == key && call_ensures(P::set_dedicated_key, (m, k), r)
                && keyed == if r is Ok {
                Some(*final(m))
            } else {
                None
            },
        draws(before, len, Ok::<Seq<u8>, Error>(drawn)) ==> drawn.len() == len && exists|
            m: &mut [u8],
            r: Result<()>,
        |
            #![trigger call_ensures(P::random, (&before, m), r)]
            call_ensures(P::random, (&before, m), r) && r is Ok && final(m)@ == drawn,
{
    if forgets(before, after) {
        let (m, q) = choose|m: &mut P, q: Ghost<(P, P)>| #[trigger]
            call_ensures(forget_key::<P>, (m,), q) && q@ == (before, after);
        assert(call_ensures(forget_key::<P>, (m,), q));
    }
    if installs(before, key, keyed) {
        let (m, k, q) = choose|m: &mut P, k: Key, q: (bool, Ghost<(P, P)>)|
            {
                &&& #[trigger] call_ensures(install_key::<P>, (m, k), q)
                &&& k@ == key
                &&& q.1@.0 == before
                &&& keyed == if q.0 {
                    Some(q.1@.1)
                } else {
                    None
                }
            };
        assert(call_ensures(install_key::<P>, (m, k), q));
    }
    if draws(before, len, Ok::<Seq<u8>, Error>(drawn)) {
        let (n, q) = choose|n: usize, q: Result<Vec<u8>>|
            {
                &&& #[trigger] call_ensures(draw::<P>, (&before, n), q)
                &&& n == len
                &&& match q {
                    Ok(v) => Ok::<Seq<u8>, Error>(drawn) == Ok::<Seq<u8>, Error>(v@),
                    Err(e) => false,
                }
            };
        assert(call_ensures(draw::<P>, (&before, n), q));
    }
}

/// What a server tells of itself: the highest counter that the client has used, the longest
/// message that the client takes, whose counters it is keeping, and whether a value is on its
/// way in pieces.
pub proof fn law_server_tells_of_itself<S: ObjectStore, P: CryptoProvider, const N: usize>(
    s: &Server<S, P, N>,
)
    ensures
        forall|r: Option<u32>|
            #![trigger call_ensures(Server::<S, P, N>::peer_invocation_counter, (s,), r)]
            call_ensures(Server::<S, P, N>::peer_invocation_counter, (s,), r) ==> r
                == s@.window.highest,
        forall|r: u16|
            #![trigger call_ensures(Server::<S, P, N>::client_max_pdu_size, (s,), r)]
            call_ensures(Server::<S, P, N>::client_max_pdu_size, (s,), r) ==> r == s@.client_max,
        forall|r: Option<SystemTitle>|
            #![trigger call_ensures(Server::<S, P, N>::replay_owner, (s,), r)]
            call_ensures(Server::<S, P, N>::replay_owner, (s,), r) ==> match r {
                Some(t) => s@.owner == Some(t@),
                None => s@.owner is None,
            },
        forall|r: bool|
            #![trigger call_ensures(Server::<S, P, N>::is_block_transfer_in_progress, (s,), r)]
            call_ensures(Server::<S, P, N>::is_block_transfer_in_progress, (s,), r) ==> (r <==> !(
            s@.transfer is Idle)),
        forall|r: u32|
            #![trigger call_ensures(Server::<S, P, N>::invocation_counter, (s,), r)]
            call_ensures(Server::<S, P, N>::invocation_counter, (s,), r) ==> r == s@.counter,
        forall|r: ServerState|
            #![trigger call_ensures(Server::<S, P, N>::state, (s,), r)]
            call_ensures(Server::<S, P, N>::state, (s,), r) ==> r == s@.state,
{
}

} // verus!
