//! Opening an association, proving who is at either end, and releasing it.

use vstd::prelude::*;

use super::store::{tell, AuditEvent, ObjectStore};
use super::{Server, ServerState};
use crate::acse::{
    Aare, Aarq, ApplicationContext, AssociationResult, AuthMechanism, Diagnostic, Referencing,
    Rlre, Rlrq, UserDiagnostic,
};
use crate::axdr::data::Data;
use crate::codec::{extend, Decode, Encode, Error, ErrorKind, Reader, Result, Writer};
use crate::security::counter::ReplayWindow;
use crate::security::keys::{Key, SystemTitle};
use crate::security::protect::constant_time_eq;
use crate::security::{draw, forget_key, install_key, CryptoProvider};
use crate::xdlms::apdu::Apdu;
use crate::xdlms::ciphering::CipheredService;
use crate::xdlms::ids::InvokeId;
use crate::xdlms::initiate::{
    Conformance, InitiateRequest, InitiateResponse, CURRENT_ASSOCIATION_SN, DLMS_VERSION,
    VAA_NAME_LN,
};
use crate::xdlms::result::ActionResult;
use crate::xdlms::service::{
    ActionResponse, ActionResponseWithOptionalData, GetDataResult, MethodDescriptor,
};
use crate::xdlms::tag::ApduTag;
#[allow(unused_imports)]
use super::model::{action_v, counter_exception_v, expected_next, plain_request, ExchangeV, ServerV};
#[allow(unused_imports)]
use super::store::noted;
#[allow(unused_imports)]
use crate::acse::{AareV, AarqV};
#[allow(unused_imports)]
use crate::axdr::data::DataV;
#[allow(unused_imports)]
use crate::client::session::fresh_window;
#[allow(unused_imports)]
use crate::codec::{whole, Cursor};
#[allow(unused_imports)]
use crate::security::{draws, forgets, installs};
#[allow(unused_imports)]
use crate::security::protect::{hls_check_of, hls_reply_of, protected_by};
#[allow(unused_imports)]
use crate::security::rustcrypto::unsupported;
#[allow(unused_imports)]
use crate::security::wrap::{title_view, unexpected, unwrapped_by};
#[allow(unused_imports)]
use crate::xdlms::apdu::ApduV;
#[allow(unused_imports)]
use crate::xdlms::ciphering::CipheredServiceV;
#[allow(unused_imports)]
use crate::xdlms::initiate::{InitiateRequestV, InitiateResponseV};
#[allow(unused_imports)]
use crate::xdlms::list::opt_view;
#[allow(unused_imports)]
use crate::xdlms::service::{
    ActionResponseV, ActionResponseWithOptionalDataV, GetDataResultV, MethodDescriptorV,
};
#[allow(unused_imports)]
use crate::xdlms::tag::tag_of;

verus! {

/// Whether cryptography that is handed the dedicated key of an InitiateRequest, where it has
/// one that can be a key, comes to this.
pub open spec fn takes_key<P: CryptoProvider>(
    p: P,
    init: InitiateRequestV,
    keyed: Option<P>,
) -> bool {
    init.dedicated_key matches Some(k) ==> (k.len() == 16 || k.len() == 32 ==> installs(
        p,
        k,
        keyed,
    ))
}

/// How far opening an association has come: it goes on, or it ends with a refusal, with the
/// counter that was expected, or with an error.
#[verifier::ext_equal]
#[verifier::reject_recursive_types(P)]
pub enum StepV<P> {
    /// It goes on.
    Go(ServerV<P>),
    /// It is refused.
    Refuse(ServerV<P>, UserDiagnostic),
    /// The client's counter is stale.
    Replay(ServerV<P>),
    /// It fails.
    Fail(ServerV<P>, Error),
}

/// The variable-access-specification name an association reports for its referencing
/// mode: `0x0007` for logical names, and the current association object's own base name
/// for short ones.
#[verifier::allow_in_spec]
pub fn vaa_name(referencing: Referencing) -> u16
    returns
        (match referencing {
            Referencing::LogicalName => VAA_NAME_LN,
            Referencing::ShortName => CURRENT_ASSOCIATION_SN,
        }),
{
    match referencing {
        Referencing::LogicalName => VAA_NAME_LN,
        Referencing::ShortName => CURRENT_ASSOCIATION_SN,
    }
}

/// The context that a client asks for.
pub open spec fn context_of(aarq: AarqV) -> ApplicationContext {
    match aarq.application_context {
        Some(c) => c,
        None => ApplicationContext::LogicalName,
    }
}

/// The mechanism that a client proposes.
pub open spec fn mechanism_of(aarq: AarqV) -> AuthMechanism {
    match aarq.mechanism_name {
        Some(m) => m,
        None => AuthMechanism::Lowest,
    }
}

/// The bytes, or none.
pub open spec fn or_empty(o: Option<Seq<u8>>) -> Seq<u8> {
    match o {
        Some(s) => s,
        None => Seq::empty(),
    }
}

impl<P: CryptoProvider> ServerV<P> {
    /// The password that a client has to give.
    pub open spec fn password(self) -> Seq<u8> {
        match self.config.password {
            Some(p) => p@,
            None => Seq::empty(),
        }
    }

    /// The server once it knows who is calling. The replay window belongs to a peer, not to
    /// an association: it is started fresh only where the peer is another one.
    pub open spec fn called_by(self, title: Option<Seq<u8>>) -> ServerV<P> {
        match title {
            None => self,
            Some(t) => if self.owner == Some(t) {
                ServerV { client_title: Some(t), ..self }
            } else {
                ServerV {
                    client_title: Some(t),
                    owner: Some(t),
                    window: fresh_window(self.config.replay_window),
                    ..self
                }
            },
        }
    }

    /// Whether the context, the mechanism, the title and the password are ones that the
    /// server takes, in that order.
    pub open spec fn admits(self, aarq: AarqV) -> StepV<P> {
        let context = context_of(aarq);
        let mechanism = mechanism_of(aarq);
        let s = ServerV { ciphered: context.is_ciphered(), ..self };
        if context.referencing() != Some(self.config.referencing) || s.ciphered
            == self.config.security.is_none() {
            StepV::Refuse(s, UserDiagnostic::ApplicationContextNameNotSupported)
        } else if mechanism != self.config.mechanism {
            StepV::Refuse(
                s,
                if self.config.mechanism is Lowest {
                    UserDiagnostic::AuthenticationMechanismNameNotRecognised
                } else {
                    UserDiagnostic::AuthenticationMechanismNameRequired
                },
            )
        } else if aarq.calling_ap_title matches Some(t) && t.len() != 8 {
            StepV::Fail(s, Error { kind: ErrorKind::InvalidLength, offset: 0 })
        } else {
            let s = s.called_by(aarq.calling_ap_title);
            if mechanism is Low && s.password() != or_empty(aarq.calling_authentication_value) {
                StepV::Refuse(s, UserDiagnostic::AuthenticationFailure)
            } else {
                StepV::Go(s)
            }
        }
    }

    /// The server once it has agreed to what a client proposes.
    pub open spec fn agrees(self, proposed: Conformance, client_max: u16) -> ServerV<P> {
        ServerV {
            negotiated: self.config.conformance.negotiate(proposed),
            client_max: if client_max == 0 {
                self.config.max_pdu_size
            } else {
                client_max
            },
            ..self
        }
    }

    /// What the InitiateRequest comes to. A dedicated key that it delivers is installed:
    /// `keyed` is the cryptography with it, or nothing where that cannot hold one.
    pub open spec fn initiated(self, init: InitiateRequestV, keyed: Option<P>) -> StepV<P> {
        match init.dedicated_key {
            None => StepV::Go(
                self.agrees(init.proposed_conformance, init.client_max_receive_pdu_size),
            ),
            Some(k) => if k.len() != 16 && k.len() != 32 {
                StepV::Fail(self, Error { kind: ErrorKind::InvalidLength, offset: 0 })
            } else {
                match keyed {
                    None => StepV::Refuse(self, UserDiagnostic::NoReasonGiven),
                    Some(crypto) => StepV::Go(
                        ServerV {
                            crypto,
                            policy: self.policy.with_dedicated(true),
                            ..self.agrees(
                                init.proposed_conformance,
                                init.client_max_receive_pdu_size,
                            )
                        },
                    ),
                }
            },
        }
    }

    /// The InitiateRequest in the user information of the AARQ, where there is one.
    pub open spec fn initiate_of(self, aarq: AarqV) -> Option<InitiateRequestV> {
        match aarq.user_information {
            None => None,
            Some(info) => match unwrapped_by(
                &self.crypto,
                self.incoming(self.config.security.global(), plain_request()),
                self.window,
                info,
                256,
            ).0 {
                Err(_) => None,
                Ok(plain) => if plain.len() > 0 && tag_of(plain[0]) == Some(
                    ApduTag::InitiateRequest,
                ) {
                    match InitiateRequestV::p(Cursor::start(plain).adv(1)) {
                        Err(_) => None,
                        Ok((init, _)) => Some(init),
                    }
                } else {
                    None
                },
            },
        }
    }

    /// Whether the cryptography is handed the dedicated key that the AARQ delivers, where it
    /// delivers one that can be a key, and comes to this by it.
    pub open spec fn rekeys(self, aarq: AarqV, keyed: Option<P>) -> bool {
        self.initiate_of(aarq) matches Some(init) ==> takes_key(self.crypto, init, keyed)
    }

    /// The same, of an AARQ that may not get that far.
    pub open spec fn keys(self, aarq: AarqV, keyed: Option<P>) -> bool {
        self.admits(aarq) matches StepV::Go(a) ==> a.rekeys(aarq, keyed)
    }

    /// Whether a challenge is drawn, where one is due, and is this.
    pub open spec fn drawn(self, aarq: AarqV, keyed: Option<P>, challenge: Result<Seq<u8>>) -> bool {
        self.decides(aarq, keyed) matches StepV::Go(s) ==> (mechanism_of(aarq).is_high_level()
            ==> draws(s.crypto, self.challenge_len(), challenge))
    }

    /// What the user information of the AARQ comes to.
    pub open spec fn proposed(self, aarq: AarqV, keyed: Option<P>) -> StepV<P> {
        match aarq.user_information {
            None => StepV::Go(self.agrees(Conformance::empty(), self.config.max_pdu_size)),
            Some(info) => {
                let (opened, window) = unwrapped_by(
                    &self.crypto,
                    self.incoming(self.config.security.global(), plain_request()),
                    self.window,
                    info,
                    256,
                );
                let s = ServerV { window, ..self };
                match opened {
                    Err(e) => if e.kind is Replay {
                        StepV::Replay(s)
                    } else {
                        StepV::Refuse(s, UserDiagnostic::AuthenticationFailure)
                    },
                    Ok(plain) => if plain.len() == 0 {
                        StepV::Fail(
                            s,
                            Error { kind: ErrorKind::Truncated { needed: 1 }, offset: 0 },
                        )
                    } else if tag_of(plain[0]) == Some(ApduTag::InitiateRequest) {
                        match InitiateRequestV::p(Cursor::start(plain).adv(1)) {
                            Err(e) => StepV::Fail(s, e),
                            Ok((init, _)) => s.initiated(init, keyed),
                        }
                    } else {
                        StepV::Go(s.agrees(Conformance::empty(), s.config.max_pdu_size))
                    },
                }
            },
        }
    }

    /// Whether the client's challenge is one that the server can take.
    pub open spec fn challenged(self, aarq: AarqV) -> StepV<P> {
        if !mechanism_of(aarq).is_high_level() {
            StepV::Go(ServerV { state: ServerState::Associated, ..self })
        } else if !(mechanism_of(aarq) is HighGmac) {
            StepV::Refuse(self, UserDiagnostic::AuthenticationMechanismNameNotRecognised)
        } else {
            match aarq.calling_authentication_value {
                None => StepV::Fail(self, unexpected()),
                Some(given) => if given.len() > 64 {
                    StepV::Fail(self, Error { kind: ErrorKind::InvalidLength, offset: 0 })
                } else {
                    StepV::Go(ServerV { client_challenge: given, ..self })
                },
            }
        }
    }

    /// Everything that is decided before a challenge is drawn.
    pub open spec fn decides(self, aarq: AarqV, keyed: Option<P>) -> StepV<P> {
        match self.admits(aarq) {
            StepV::Go(a) => match a.proposed(aarq, keyed) {
                StepV::Go(b) => b.challenged(aarq),
                step => step,
            },
            step => step,
        }
    }

    /// What the server offers in its InitiateResponse.
    pub open spec fn offer(self) -> InitiateResponseV {
        InitiateResponseV {
            negotiated_quality_of_service: None,
            negotiated_dlms_version: DLMS_VERSION,
            negotiated_conformance: self.negotiated,
            server_max_receive_pdu_size: self.config.max_pdu_size,
            vaa_name: vaa_name(self.config.referencing),
        }
    }

    /// The InitiateResponse, its tag included.
    pub open spec fn offer_plain(self) -> Seq<u8> {
        seq![ApduTag::InitiateResponse.code()] + self.offer().enc()
    }

    /// The user information of the AARE, and the server afterwards: the InitiateResponse as
    /// it is, or protected under the global key set and the next counter.
    pub open spec fn answer_information(self) -> (Result<Seq<u8>>, ServerV<P>) {
        if !self.ciphered {
            (Ok(self.offer_plain()), self)
        } else if self.config.system_title is None {
            (Err(unexpected()), self)
        } else if self.counter == u32::MAX {
            (Err(unsupported()), self)
        } else {
            let ic = (self.counter + 1) as u32;
            let next = ServerV { counter: ic, ..self };
            match self.crypto.auth_bytes() {
                None => (Err(unsupported()), next),
                Some(k) => match protected_by(
                    &self.crypto,
                    self.config.security.global(),
                    self.config.system_title->0@,
                    ic,
                    k,
                    self.offer_plain(),
                ) {
                    Err(e) => (Err(e), next),
                    Ok(payload) => (
                        Ok(
                            seq![ApduTag::GloInitiateResponse.code()] + (CipheredServiceV {
                                security_control: self.config.security.control(),
                                invocation_counter: ic,
                                payload,
                            }).enc(),
                        ),
                        next,
                    ),
                },
            }
        }
    }

    /// The AARE that opens the association.
    pub open spec fn acceptance(self, aarq: AarqV, info: Seq<u8>) -> AareV {
        let m = mechanism_of(aarq);
        AareV {
            application_context: Some(context_of(aarq)),
            result: AssociationResult::Accepted,
            diagnostic: Diagnostic::User(UserDiagnostic::Null),
            responding_ap_title: title_view(self.config.system_title),
            responder_acse_requirements: !(m is Lowest),
            mechanism_name: if m is Lowest {
                None
            } else {
                Some(m)
            },
            responding_authentication_value: if m.is_high_level() {
                Some(self.server_challenge)
            } else {
                None
            },
            user_information: Some(info),
        }
    }

    /// What opening the association comes to, once everything is decided.
    pub open spec fn accepts<S: ObjectStore>(
        self,
        aarq: AarqV,
        store: S,
        x: ExchangeV<P>,
        after: S,
    ) -> bool {
        let (info, next) = self.answer_information();
        match info {
            Err(e) => after == store && x.next == next && x.fails(e),
            Ok(info) => {
                let aare = next.acceptance(aarq, info);
                &&& noted(
                    store,
                    AuditEvent::Associated {
                        mechanism: mechanism_of(aarq),
                        ciphered: self.ciphered,
                    },
                    after,
                )
                &&& next.writes(aare.enc(), aare.encodable(), x)
            },
        }
    }

    /// The AARE that refuses an association. It names the context that the client asked
    /// for.
    pub open spec fn refusal(self, context: ApplicationContext, d: UserDiagnostic) -> AareV {
        AareV {
            application_context: Some(context),
            result: AssociationResult::RejectedPermanent,
            diagnostic: Diagnostic::User(d),
            responding_ap_title: title_view(self.config.system_title),
            ..AareV::blank()
        }
    }

    /// What refusing an association comes to.
    pub open spec fn refuses(
        self,
        context: ApplicationContext,
        d: UserDiagnostic,
        x: ExchangeV<P>,
    ) -> bool {
        let aare = self.refusal(context, d);
        ServerV { state: ServerState::Closed, ..self }.writes(aare.enc(), aare.encodable(), x)
    }

    /// How long a challenge the server draws.
    pub open spec fn challenge_len(self) -> nat {
        if self.config.challenge_len < 8 {
            8
        } else if self.config.challenge_len > 64 {
            64
        } else {
            self.config.challenge_len as nat
        }
    }

    /// What an AARQ comes to, given the cryptography once it has forgotten the last
    /// association, the cryptography with the dedicated key that the client delivers, and
    /// the challenge that was drawn, or why none could be.
    pub open spec fn associates<S: ObjectStore>(
        self,
        aarq: AarqV,
        forgotten: P,
        keyed: Option<P>,
        challenge: Result<Seq<u8>>,
        store: S,
        x: ExchangeV<P>,
        after: S,
    ) -> bool {
        match self.cleared(forgotten).decides(aarq, keyed) {
            StepV::Refuse(s, d) => noted(
                store,
                AuditEvent::AssociationRefused { diagnostic: d },
                after,
            ) && s.refuses(context_of(aarq), d, x),
            StepV::Replay(s) => {
                let next = ServerV { state: ServerState::Idle, ..s };
                let apdu = counter_exception_v(expected_next(s.window));
                &&& noted(
                    store,
                    AuditEvent::AssociationRefused {
                        diagnostic: UserDiagnostic::AuthenticationFailure,
                    },
                    after,
                )
                &&& next.writes(apdu.enc(), apdu.fits(), x)
            },
            StepV::Fail(s, e) => after == store && x.next == s && x.fails(e),
            StepV::Go(s) => if !mechanism_of(aarq).is_high_level() {
                s.accepts(aarq, store, x, after)
            } else {
                match challenge {
                    Err(e) => after == store && x.next == s && x.fails(e),
                    Ok(c) => ServerV {
                        server_challenge: c,
                        state: ServerState::AwaitingHlsReply,
                        ..s
                    }.accepts(aarq, store, x, after),
                }
            },
        }
    }

    /// What an RLRQ comes to.
    pub open spec fn releases<S: ObjectStore>(
        self,
        apdu: Seq<u8>,
        forgotten: P,
        store: S,
        x: ExchangeV<P>,
        after: S,
    ) -> bool {
        match whole(Rlrq::parse(Cursor::start(apdu))) {
            Err(e) => after == store && x.next == self && x.fails(e),
            Ok(v) => {
                let rlre = Rlre { reason: v.reason, user_information: None };
                &&& noted(store, AuditEvent::Released, after)
                &&& ServerV {
                    state: ServerState::Closed,
                    crypto: forgotten,
                    policy: self.policy.with_dedicated(false),
                    ..self
                }.writes(rlre.enc(), rlre.encodable(), x)
            },
        }
    }

    /// What the client's answer to the challenge comes to.
    pub open spec fn proves(
        self,
        invoke_id: InvokeId,
        descriptor: MethodDescriptorV,
        parameters: Option<DataV>,
        x: ExchangeV<P>,
    ) -> bool {
        let shown = match parameters {
            Some(d) => d.string(),
            None => None,
        };
        if !(descriptor.class_id == 15 && descriptor.method_id == 1) || shown is None {
            self.not_possible(x)
        } else if self.client_title is None {
            x.next == self && x.fails(unexpected())
        } else if self.crypto.auth_bytes() is None {
            x.next == self && x.fails(unsupported())
        } else if hls_check_of(
            &self.crypto,
            self.policy,
            self.client_title->0,
            self.crypto.auth_bytes()->0,
            self.server_challenge,
            shown->0,
        ) is Err {
            ServerV { state: ServerState::Closed, ..self }.sends(
                action_v(invoke_id, ActionResult::ReadWriteDenied),
                x,
            )
        } else if self.config.system_title is None {
            x.next == self && x.fails(unexpected())
        } else if self.counter == u32::MAX {
            x.next == self && x.fails(unsupported())
        } else {
            let next = ServerV { counter: (self.counter + 1) as u32, ..self };
            match hls_reply_of(
                &self.crypto,
                self.policy,
                self.config.system_title->0@,
                next.counter,
                self.crypto.auth_bytes()->0,
                self.client_challenge,
            ) {
                Err(e) => x.next == next && x.fails(e),
                Ok(reply) => ServerV { state: ServerState::Associated, ..next }.sends(
                    ApduV::ActionResponse(
                        ActionResponseV::Normal {
                            invoke_id,
                            response: ActionResponseWithOptionalDataV {
                                result: ActionResult::Success,
                                return_parameters: Some(
                                    GetDataResultV::Data(DataV::OctetString(reply)),
                                ),
                            },
                        },
                    ),
                    x,
                ),
            }
        }
    }
}

/// How far opening an association has come.
enum Step {
    Go,
    Refuse(UserDiagnostic),
    Replay,
    Fail(Error),
}

impl Step {
    /// The step, with the server that it leaves.
    spec fn left<P>(self, s: ServerV<P>) -> StepV<P> {
        match self {
            Step::Go => StepV::Go(s),
            Step::Refuse(d) => StepV::Refuse(s, d),
            Step::Replay => StepV::Replay(s),
            Step::Fail(e) => StepV::Fail(s, e),
        }
    }
}

impl<S: ObjectStore, P: CryptoProvider, const N: usize> Server<S, P, N> {
    /// Note who is calling.
    fn note_caller(&mut self, title: SystemTitle)
        ensures
            final(self)@ == old(self)@.called_by(Some(title@)),
            final(self).objects() == old(self).objects(),
    {
        self.client_system_title = Some(title);
        // The replay window belongs to a *peer*, not to an association. A different
        // peer's counters say nothing about this one's, so that is the one event
        // that starts a fresh window; the same peer reconnecting keeps its own, so a
        // frame recorded from its previous association is still a replay.
        let known = match self.replay_owner {
            Some(owner) => owner == title,
            None => false,
        };
        if !known {
            self.replay_owner = Some(title);
            self.peer_replay = ReplayWindow::new(self.config.replay_window);
        }
    }

    fn check_caller(&mut self, aarq: &Aarq<'_>) -> (step: Step)
        ensures
            step.left(final(self)@) == old(self)@.admits(aarq@),
            final(self).objects() == old(self).objects(),
    {
        let context = match aarq.application_context {
            Some(c) => c,
            None => ApplicationContext::LogicalName,
        };
        self.ciphered_association = context.is_ciphered();
        if context.referencing() != Some(self.config.referencing) {
            return Step::Refuse(UserDiagnostic::ApplicationContextNameNotSupported);
        }
        if self.ciphered_association == self.config.security.is_none() {
            return Step::Refuse(UserDiagnostic::ApplicationContextNameNotSupported);
        }
        let mechanism = match aarq.mechanism_name {
            Some(m) => m,
            None => AuthMechanism::Lowest,
        };
        if mechanism != self.config.mechanism {
            return Step::Refuse(
                if matches!(self.config.mechanism, AuthMechanism::Lowest) {
                    UserDiagnostic::AuthenticationMechanismNameNotRecognised
                } else {
                    UserDiagnostic::AuthenticationMechanismNameRequired
                },
            );
        }
        if let Some(title) = aarq.calling_ap_title {
            match SystemTitle::from_slice(title) {
                Ok(t) => self.note_caller(t),
                Err(e) => {
                    return Step::Fail(e);
                },
            }
        }
        // Low level security is decided here and now; high level security needs two
        // more passes and is only *started* here.

        if matches!(mechanism, AuthMechanism::Low) {
            let empty: [u8; 0] = [];
            assert(empty@ =~= Seq::<u8>::empty());
            let expected: &[u8] = match &self.config.password {
                Some(p) => p.expose(),
                None => empty.as_slice(),
            };
            let given: &[u8] = match aarq.calling_authentication_value {
                Some(v) => v,
                None => empty.as_slice(),
            };
            if !constant_time_eq(expected, given) {
                return Step::Refuse(UserDiagnostic::AuthenticationFailure);
            }
        }
        Step::Go
    }

    fn agree(&mut self, proposed: Conformance, client_max: u16)
        ensures
            final(self)@ == old(self)@.agrees(proposed, client_max),
            final(self).objects() == old(self).objects(),
    {
        self.negotiated = self.config.conformance.negotiate(proposed);
        // What the client says it can receive bounds every reply this association will
        // send. Parsing it and then ignoring it is how a server ends up transmitting a
        // response the client has already stopped reading.
        self.client_max_pdu_size =
        if client_max == 0 {
            self.config.max_pdu_size
        } else {
            client_max
        };
    }

    /// Install the dedicated key a client delivers.
    ///
    /// A dedicated key is not a preference the server configured — it is the client's
    /// decision, taken in its InitiateRequest. Both ends must switch or nothing after it
    /// decrypts, so the protector follows the key rather than the configuration.
    ///
    /// A provider that cannot hold one therefore cannot serve this association at all,
    /// and it is refused. Carrying on with the global key set reads like graceful
    /// degradation and is not: the client has already switched to `ded-` tags, so every
    /// message afterwards fails its tag with nothing to point at — and a client that asked
    /// for a key of its own and silently got the long-lived one had a security expectation
    /// quietly dropped.
    fn install_key(&mut self, init: &InitiateRequest<'_>) -> (step: Step)
        ensures
            exists|keyed: Option<P>|
                {
                    &&& takes_key(old(self)@.crypto, init@, keyed)
                    &&& step.left(final(self)@) == #[trigger] old(self)@.initiated(init@, keyed)
                },
            final(self).objects() == old(self).objects(),
    {
        let ghost none: Option<P> = None;
        if let Some(dedicated) = init.dedicated_key {
            let key = match Key::from_slice(dedicated) {
                Ok(k) => k,
                Err(e) => {
                    assert(Step::Fail(e).left(self@) == old(self)@.initiated(init@, none));
                    return Step::Fail(e);
                },
            };
            let ghost k = key@;
            let (taken, _) = install_key(self.protector.provider_mut(), key);
            if !taken {
                assert(installs(old(self)@.crypto, k, none));
                // There is no ACSE diagnostic for "cannot hold a dedicated key",
                // so the refusal is generic.
                let step = Step::Refuse(UserDiagnostic::NoReasonGiven);
                assert(step.left(self@) == old(self)@.initiated(init@, none));
                return step;
            }
            self.protector.set_dedicated(true);
            assert(installs(old(self)@.crypto, k, Some(self@.crypto)));
        }
        self.agree(init.proposed_conformance, init.client_max_receive_pdu_size);
        assert(Step::Go.left(self@) == old(self)@.initiated(init@, Some(self@.crypto)));
        proof {
            if init@.dedicated_key is None {
                assert(Step::Go.left(self@) == old(self)@.initiated(init@, none));
            }
        }
        Step::Go
    }
}

impl<S: ObjectStore, P: CryptoProvider, const N: usize> Server<S, P, N> {
    /// Negotiate against what the client proposed.
    fn negotiate(&mut self, aarq: &Aarq<'_>) -> (step: Step)
        ensures
            exists|keyed: Option<P>|
                {
                    &&& old(self)@.rekeys(aarq@, keyed)
                    &&& step.left(final(self)@) == #[trigger] old(self)@.proposed(aarq@, keyed)
                },
            final(self).objects() == old(self).objects(),
    {
        let ghost none: Option<P> = None;
        let info = match aarq.user_information {
            Some(i) => i,
            None => {
                self.agree(Conformance::empty(), self.config.max_pdu_size);
                assert(Step::Go.left(self@) == old(self)@.proposed(aarq@, none));
                return Step::Go;
            },
        };
        // The InitiateRequest is the first thing a ciphered association protects, so
        // it is also the first thing a stale invocation counter breaks — and the
        // commonest cause of a stale counter is a client that restarted. Answering
        // that with a transport error leaves the caller inventing a reply and the
        // client with no way to resynchronise, so it gets the code the standard has
        // for it, carrying the value this end expects next. Anything else that
        // fails to unprotect is a wrong key or a forgery, and that is a refusal the
        // client can read.
        let plain = match self.unprotect_initiate(info) {
            Ok(p) => p,
            Err(e) => {
                let step = if matches!(e.kind, ErrorKind::Replay) {
                    Step::Replay
                } else {
                    Step::Refuse(UserDiagnostic::AuthenticationFailure)
                };
                assert(step.left(self@) == old(self)@.proposed(aarq@, none));
                return step;
            },
        };
        let ghost s = self@;
        let mut r = Reader::new(plain.as_slice());
        let tag = match r.u8() {
            Ok(t) => t,
            Err(e) => {
                assert(Step::Fail(e).left(self@) == old(self)@.proposed(aarq@, none));
                return Step::Fail(e);
            },
        };
        assert(r@ == Cursor::start(plain@).adv(1));
        let known = ApduTag::from_u8(tag);
        if !matches!(known, Some(ApduTag::InitiateRequest)) {
            self.agree(Conformance::empty(), self.config.max_pdu_size);
            assert(Step::Go.left(self@) == old(self)@.proposed(aarq@, none));
            return Step::Go;
        }
        assert(InitiateRequest::parse(r@) == InitiateRequestV::p(r@));
        let init = match InitiateRequest::decode(&mut r) {
            Ok(i) => i,
            Err(e) => {
                assert(Step::Fail(e).left(self@) == old(self)@.proposed(aarq@, none));
                return Step::Fail(e);
            },
        };
        let step = self.install_key(&init);
        proof {
            let keyed = choose|keyed: Option<P>|
                {
                    &&& takes_key(s.crypto, init@, keyed)
                    &&& step.left(self@) == #[trigger] s.initiated(init@, keyed)
                };
            assert(step.left(self@) == old(self)@.proposed(aarq@, keyed));
        }
        step
    }

    /// Take the client's challenge, where it has to send one.
    fn take_challenge(&mut self, aarq: &Aarq<'_>) -> (step: Step)
        ensures
            step.left(final(self)@) == old(self)@.challenged(aarq@),
            final(self).objects() == old(self).objects(),
    {
        let mechanism = match aarq.mechanism_name {
            Some(m) => m,
            None => AuthMechanism::Lowest,
        };
        if !mechanism.is_high_level() {
            self.state = ServerState::Associated;
            return Step::Go;
        }
        if !matches!(mechanism, AuthMechanism::HighGmac) {
            return Step::Refuse(UserDiagnostic::AuthenticationMechanismNameNotRecognised);
        }
        let given = match aarq.calling_authentication_value {
            Some(v) => v,
            None => {
                return Step::Fail(Error::new(ErrorKind::UnexpectedMessage, 0));
            },
        };
        if given.len() > 64 {
            return Step::Fail(Error::new(ErrorKind::InvalidLength, 0));
        }
        let mut kept: Vec<u8> = Vec::new();
        extend(&mut kept, given);
        assert(kept@ =~= given@);
        self.client_challenge = kept;
        Step::Go
    }

    /// Everything that is decided before a challenge is drawn.
    fn decide(&mut self, aarq: &Aarq<'_>) -> (step: Step)
        ensures
            exists|keyed: Option<P>|
                {
                    &&& old(self)@.keys(aarq@, keyed)
                    &&& step.left(final(self)@) == #[trigger] old(self)@.decides(aarq@, keyed)
                },
            final(self).objects() == old(self).objects(),
    {
        let ghost none: Option<P> = None;
        let step = self.check_caller(aarq);
        let ghost a = self@;
        if !matches!(step, Step::Go) {
            assert(step.left(self@) == old(self)@.decides(aarq@, none));
            return step;
        }
        assert(old(self)@.admits(aarq@) == StepV::Go(a));
        let step = self.negotiate(aarq);
        let ghost b = self@;
        let ghost keyed = choose|keyed: Option<P>|
            {
                &&& a.rekeys(aarq@, keyed)
                &&& step.left(b) == #[trigger] a.proposed(aarq@, keyed)
            };
        if !matches!(step, Step::Go) {
            assert(step.left(self@) == old(self)@.decides(aarq@, keyed));
            return step;
        }
        let step = self.take_challenge(aarq);
        assert(step.left(self@) == old(self)@.decides(aarq@, keyed));
        step
    }

    /// The user information of the AARE: the InitiateResponse, protected on its own where
    /// the association is.
    fn answer_information(&mut self) -> (r: Result<Vec<u8>>)
        ensures
            final(self)@ == old(self)@.answer_information().1,
            match r {
                Ok(v) => old(self)@.answer_information().0 == Ok::<Seq<u8>, Error>(v@),
                Err(e) => old(self)@.answer_information().0 == Err::<Seq<u8>, Error>(e),
            },
            final(self).objects() == old(self).objects(),
    {
        let offer = InitiateResponse {
            negotiated_quality_of_service: None,
            negotiated_dlms_version: DLMS_VERSION,
            negotiated_conformance: self.negotiated,
            server_max_receive_pdu_size: self.config.max_pdu_size,
            // The variable-access-specification name a client reads the referencing mode
            // back from.
            vaa_name: vaa_name(self.config.referencing),
        };
        assert(offer@ =~= self@.offer());
        assert(offer.enc() == offer@.enc() && offer.encodable() == offer@.fits());
        let mut plain: Vec<u8> = Vec::new();
        plain.write_u8(ApduTag::InitiateResponse.as_u8())?;
        offer.encode(&mut plain)?;
        assert(plain@ =~= self@.offer_plain());
        if !self.ciphered_association {
            return Ok(plain);
        }
        let title = match self.config.system_title {
            Some(t) => t,
            None => {
                return Err(Error::new(ErrorKind::UnexpectedMessage, 0));
            },
        };
        let ic = self.next_counter()?;
        let auth_key = self.auth_key()?;
        let payload = self.protector.seal(
            self.config.security.global(),
            &title,
            ic,
            auth_key,
            plain.as_slice(),
        )?;
        let service = CipheredService {
            security_control: self.config.security.control(),
            invocation_counter: ic,
            payload: payload.as_slice(),
        };
        assert(plain@.len() <= 32) by {
            crate::bytes::lemma_be_bytes_len(offer.server_max_receive_pdu_size as nat, 2);
            crate::bytes::lemma_be_bytes_len(offer.vaa_name as nat, 2);
            crate::bytes::lemma_be_bytes_len(offer.negotiated_conformance.0 as nat, 3);
        }
        assert(service.enc() == service@.enc() && service.encodable() == service@.fits());
        let mut info: Vec<u8> = Vec::new();
        info.write_u8(ApduTag::GloInitiateResponse.as_u8())?;
        service.encode(&mut info)?;
        assert(info@ =~= seq![ApduTag::GloInitiateResponse.code()] + service@.enc());
        Ok(info)
    }

    /// Open the association.
    fn accept(&mut self, aarq: &Aarq<'_>, out: &mut [u8]) -> (r: Result<usize>)
        ensures
            old(self)@.accepts(
                aarq@,
                old(self).objects(),
                ExchangeV {
                    n: N as nat,
                    before: old(out)@,
                    after: final(out)@,
                    next: final(self)@,
                    r,
                },
                final(self).objects(),
            ),
    {
        let info = self.answer_information()?;
        let ghost next = self@;
        let mechanism = match aarq.mechanism_name {
            Some(m) => m,
            None => AuthMechanism::Lowest,
        };
        let context = match aarq.application_context {
            Some(c) => c,
            None => ApplicationContext::LogicalName,
        };
        let lowest = matches!(mechanism, AuthMechanism::Lowest);
        let mut challenge: Vec<u8> = Vec::new();
        extend(&mut challenge, self.server_challenge.as_slice());
        assert(challenge@ =~= next.server_challenge);
        let title = self.config.system_title;
        let ap_title = match &title {
            Some(t) => Some(t.as_bytes().as_slice()),
            None => None,
        };
        let aare = Aare {
            application_context: Some(context),
            result: AssociationResult::Accepted,
            diagnostic: Diagnostic::User(UserDiagnostic::Null),
            responding_ap_title: ap_title,
            responder_acse_requirements: !lowest,
            mechanism_name: if lowest {
                None
            } else {
                Some(mechanism)
            },
            responding_authentication_value: if mechanism.is_high_level() {
                Some(challenge.as_slice())
            } else {
                None
            },
            user_information: Some(info.as_slice()),
        };
        assert(aare@ =~= next.acceptance(aarq@, info@));
        assert(aare.enc() == aare@.enc() && aare.encodable() == aare@.encodable());
        let ciphered = self.ciphered_association;
        tell(&mut self.store, AuditEvent::Associated { mechanism, ciphered });
        assert(self@ == next);
        self.write(&aare, out)
    }

    /// Refuse the association.
    ///
    /// The refusal names the context the *client* asked for, not the one the server
    /// would have preferred. A client checks that the answer is about what it
    /// proposed, and one that reads "logical name, plain" in response to a request
    /// for a ciphered association cannot tell a refusal from a downgrade attempt.
    fn refuse(
        &mut self,
        context: ApplicationContext,
        diagnostic: UserDiagnostic,
        out: &mut [u8],
    ) -> (r: Result<usize>)
        ensures
            old(self)@.refuses(
                context,
                diagnostic,
                ExchangeV {
                    n: N as nat,
                    before: old(out)@,
                    after: final(out)@,
                    next: final(self)@,
                    r,
                },
            ),
            noted(
                old(self).objects(),
                AuditEvent::AssociationRefused { diagnostic },
                final(self).objects(),
            ),
    {
        self.state = ServerState::Closed;
        tell(&mut self.store, AuditEvent::AssociationRefused { diagnostic });
        let title = self.config.system_title;
        let ap_title = match &title {
            Some(t) => Some(t.as_bytes().as_slice()),
            None => None,
        };
        let aare = Aare {
            application_context: Some(context),
            result: AssociationResult::RejectedPermanent,
            diagnostic: Diagnostic::User(diagnostic),
            responding_ap_title: ap_title,
            responder_acse_requirements: false,
            mechanism_name: None,
            responding_authentication_value: None,
            user_information: None,
        };
        assert(aare@ =~= old(self)@.refusal(context, diagnostic));
        assert(aare.enc() == aare@.enc() && aare.encodable() == aare@.encodable());
        self.write(&aare, out)
    }

    /// Decide an AARQ, up to the challenge.
    fn begin(&mut self, aarq: &Aarq<'_>, out: &mut [u8]) -> (r: Option<Result<usize>>)
        ensures
            exists|forgotten: P, keyed: Option<P>|
                {
                    &&& forgets(old(self)@.crypto, forgotten)
                    &&& old(self)@.cleared(forgotten).keys(aarq@, keyed)
                    &&& match r {
                        None => (#[trigger] old(self)@.cleared(forgotten).decides(aarq@, keyed))
                            == StepV::Go(final(self)@) && final(out)@ == old(out)@
                            && final(self).objects() == old(self).objects(),
                        Some(r) => !(old(self)@.cleared(forgotten).decides(aarq@, keyed) is Go)
                            && forall|challenge: Result<Seq<u8>>| #[trigger]
                            old(self)@.associates(
                                aarq@,
                                forgotten,
                                keyed,
                                challenge,
                                old(self).objects(),
                                ExchangeV {
                                    n: N as nat,
                                    before: old(out)@,
                                    after: final(out)@,
                                    next: final(self)@,
                                    r,
                                },
                                final(self).objects(),
                            ),
                    }
                },
    {
        // A client may open a second association on a link it never released — and a
        // sans-I/O engine cannot see a dropped connection either. Whatever the first
        // association negotiated goes now, so the second cannot inherit its dedicated
        // key and answer in `ded-` tags a client that never asked for one.
        self.clear_association();
        let ghost forgotten = self@.crypto;
        let ghost cleared = self@;
        let step = self.decide(aarq);
        let ghost keyed = choose|keyed: Option<P>|
            {
                &&& cleared.keys(aarq@, keyed)
                &&& step.left(self@) == #[trigger] cleared.decides(aarq@, keyed)
            };
        assert(step.left(self@) == old(self)@.cleared(forgotten).decides(aarq@, keyed));
        match step {
            Step::Go => None,
            Step::Fail(e) => Some(Err(e)),
            Step::Refuse(d) => {
                let context = match aarq.application_context {
                    Some(c) => c,
                    None => ApplicationContext::LogicalName,
                };
                Some(self.refuse(context, d, out))
            },
            Step::Replay => {
                let expected = self.peer_replay.expected_next();
                assert(expected == expected_next(self@.window));
                self.state = ServerState::Idle;
                tell(
                    &mut self.store,
                    AuditEvent::AssociationRefused {
                        diagnostic: UserDiagnostic::AuthenticationFailure,
                    },
                );
                Some(self.counter_exception(expected, out))
            },
        }
    }

    /// Handle an AARQ with a challenge that was drawn elsewhere.
    ///
    /// The challenge goes out, and is kept for the client's proof, only where the mechanism
    /// is one of high level security.
    ///
    /// # Errors
    /// As [`Server::handle`], but for the entropy.
    pub fn associate_with(&mut self, apdu: &[u8], challenge: &[u8], out: &mut [u8]) -> (r: Result<
        usize,
    >)
        ensures
            ({
                let x = ExchangeV {
                    n: N as nat,
                    before: old(out)@,
                    after: final(out)@,
                    next: final(self)@,
                    r,
                };
                match whole(Aarq::parse(Cursor::start(apdu@))) {
                    Err(e) => final(self).objects() == old(self).objects() && x.next == old(self)@
                        && x.fails(e),
                    Ok(aarq) => exists|forgotten: P, keyed: Option<P>|
                        {
                            &&& forgets(old(self)@.crypto, forgotten)
                            &&& old(self)@.cleared(forgotten).keys(aarq, keyed)
                            &&& #[trigger] old(self)@.associates(
                                aarq,
                                forgotten,
                                keyed,
                                Ok(challenge@),
                                old(self).objects(),
                                x,
                                final(self).objects(),
                            )
                        },
                }
            }),
    {
        let aarq = Aarq::from_bytes(apdu)?;
        match self.begin(&aarq, out) {
            Some(r) => {
                proof {
                    let (forgotten, keyed) = choose|forgotten: P, keyed: Option<P>|
                        {
                            &&& forgets(old(self)@.crypto, forgotten)
                            &&& old(self)@.cleared(forgotten).keys(aarq@, keyed)
                            &&& !((#[trigger] old(self)@.cleared(forgotten).decides(
                                aarq@,
                                keyed,
                            )) is Go)
                            &&& forall|challenge: Result<Seq<u8>>| #[trigger]
                                old(self)@.associates(
                                    aarq@,
                                    forgotten,
                                    keyed,
                                    challenge,
                                    old(self).objects(),
                                    ExchangeV {
                                        n: N as nat,
                                        before: old(out)@,
                                        after: out@,
                                        next: self@,
                                        r,
                                    },
                                    self.objects(),
                                )
                        };
                    assert(old(self)@.associates(
                        aarq@,
                        forgotten,
                        keyed,
                        Ok(challenge@),
                        old(self).objects(),
                        ExchangeV {
                            n: N as nat,
                            before: old(out)@,
                            after: out@,
                            next: self@,
                            r,
                        },
                        self.objects(),
                    ));
                }
                r
            },
            None => {
                let ghost s = self@;
                let ghost (forgotten, keyed) = choose|forgotten: P, keyed: Option<P>|
                    {
                        &&& forgets(old(self)@.crypto, forgotten)
                        &&& old(self)@.cleared(forgotten).keys(aarq@, keyed)
                        &&& (#[trigger] old(self)@.cleared(forgotten).decides(aarq@, keyed))
                            == StepV::Go(s)
                    };
                let high = match aarq.mechanism_name {
                    Some(m) => m.is_high_level(),
                    None => false,
                };
                if high {
                    let mut kept: Vec<u8> = Vec::new();
                    extend(&mut kept, challenge);
                    assert(kept@ =~= challenge@);
                    self.server_challenge = kept;
                    self.state = ServerState::AwaitingHlsReply;
                }
                let r = self.accept(&aarq, out);
                assert(old(self)@.associates(
                    aarq@,
                    forgotten,
                    keyed,
                    Ok(challenge@),
                    old(self).objects(),
                    ExchangeV { n: N as nat, before: old(out)@, after: out@, next: self@, r },
                    self.objects(),
                ));
                r
            },
        }
    }

    /// Handle an AARQ.
    #[verifier::rlimit(60)]
    pub(super) fn handle_aarq(&mut self, apdu: &[u8], out: &mut [u8]) -> (r: Result<usize>)
        ensures
            old(self)@.called(
                apdu@,
                old(self).objects(),
                ExchangeV {
                    n: N as nat,
                    before: old(out)@,
                    after: final(out)@,
                    next: final(self)@,
                    r,
                },
                final(self).objects(),
            ),
    {
        let aarq = Aarq::from_bytes(apdu)?;
        match self.begin(&aarq, out) {
            Some(r) => {
                proof {
                    let (forgotten, keyed) = choose|forgotten: P, keyed: Option<P>|
                        {
                            &&& forgets(old(self)@.crypto, forgotten)
                            &&& old(self)@.cleared(forgotten).keys(aarq@, keyed)
                            &&& !((#[trigger] old(self)@.cleared(forgotten).decides(
                                aarq@,
                                keyed,
                            )) is Go)
                            &&& forall|challenge: Result<Seq<u8>>| #[trigger]
                                old(self)@.associates(
                                    aarq@,
                                    forgotten,
                                    keyed,
                                    challenge,
                                    old(self).objects(),
                                    ExchangeV {
                                        n: N as nat,
                                        before: old(out)@,
                                        after: out@,
                                        next: self@,
                                        r,
                                    },
                                    self.objects(),
                                )
                        };
                    let none: Result<Seq<u8>> = Ok(Seq::empty());
                    assert(old(self)@.associates(
                        aarq@,
                        forgotten,
                        keyed,
                        none,
                        old(self).objects(),
                        ExchangeV {
                            n: N as nat,
                            before: old(out)@,
                            after: out@,
                            next: self@,
                            r,
                        },
                        self.objects(),
                    ));
                }
                r
            },
            None => {
                let ghost s = self@;
                let ghost (forgotten, keyed) = choose|forgotten: P, keyed: Option<P>|
                    {
                        &&& forgets(old(self)@.crypto, forgotten)
                        &&& old(self)@.cleared(forgotten).keys(aarq@, keyed)
                        &&& (#[trigger] old(self)@.cleared(forgotten).decides(aarq@, keyed))
                            == StepV::Go(s)
                    };
                let high = match aarq.mechanism_name {
                    Some(m) => m.is_high_level(),
                    None => false,
                };
                let ghost mut drawn: Result<Seq<u8>> = Ok(Seq::empty());
                if high {
                    let len: usize = if self.config.challenge_len < 8 {
                        8
                    } else if self.config.challenge_len > 64 {
                        64
                    } else {
                        self.config.challenge_len
                    };
                    let challenge = match draw(self.protector.provider(), len) {
                        Ok(v) => v,
                        Err(e) => {
                            proof {
                                drawn = Err(e);
                                assert(draws(s.crypto, len as nat, drawn));
                            }
                            assert(old(self)@.associates(
                                aarq@,
                                forgotten,
                                keyed,
                                drawn,
                                old(self).objects(),
                                ExchangeV {
                                    n: N as nat,
                                    before: old(out)@,
                                    after: out@,
                                    next: self@,
                                    r: Err::<usize, Error>(e),
                                },
                                self.objects(),
                            ));
                            return Err(e);
                        },
                    };
                    proof {
                        drawn = Ok(challenge@);
                        assert(draws(s.crypto, len as nat, drawn));
                    }
                    self.server_challenge = challenge;
                    self.state = ServerState::AwaitingHlsReply;
                }
                let r = self.accept(&aarq, out);
                assert(old(self)@.associates(
                    aarq@,
                    forgotten,
                    keyed,
                    drawn,
                    old(self).objects(),
                    ExchangeV { n: N as nat, before: old(out)@, after: out@, next: self@, r },
                    self.objects(),
                ));
                r
            },
        }
    }

    /// Handle an RLRQ.
    pub(super) fn handle_release(&mut self, apdu: &[u8], out: &mut [u8]) -> (r: Result<usize>)
        ensures
            old(self)@.ends(
                apdu@,
                old(self).objects(),
                ExchangeV {
                    n: N as nat,
                    before: old(out)@,
                    after: final(out)@,
                    next: final(self)@,
                    r,
                },
                final(self).objects(),
            ),
    {
        let rlrq = match Rlrq::from_bytes(apdu) {
            Ok(v) => v,
            Err(e) => {
                assert(old(self)@.releases(
                    apdu@,
                    self@.crypto,
                    old(self).objects(),
                    ExchangeV {
                        n: N as nat,
                        before: old(out)@,
                        after: out@,
                        next: self@,
                        r: Err::<usize, Error>(e),
                    },
                    self.objects(),
                ));
                return Err(e);
            },
        };
        self.state = ServerState::Closed;
        forget_key(self.protector.provider_mut());
        self.protector.set_dedicated(false);
        let ghost forgotten = self@.crypto;
        tell(&mut self.store, AuditEvent::Released);
        let rlre = Rlre { reason: rlrq.reason, user_information: None };
        let r = self.write(&rlre, out);
        assert(old(self)@.releases(
            apdu@,
            forgotten,
            old(self).objects(),
            ExchangeV { n: N as nat, before: old(out)@, after: out@, next: self@, r },
            self.objects(),
        ));
        r
    }

    /// Check the client's answer to the challenge, and answer the client's.
    pub(super) fn handle_hls_reply(
        &mut self,
        invoke_id: InvokeId,
        descriptor: MethodDescriptor,
        parameters: Option<Data<'_>>,
        out: &mut [u8],
    ) -> (r: Result<usize>)
        ensures
            old(self)@.proves(
                invoke_id,
                descriptor@,
                opt_view(parameters),
                ExchangeV {
                    n: N as nat,
                    before: old(out)@,
                    after: final(out)@,
                    next: final(self)@,
                    r,
                },
            ),
            final(self).objects() == old(self).objects(),
    {
        let shown = match parameters {
            Some(p) => p.as_bytes(),
            None => None,
        };
        let shown = match shown {
            Some(b) => b,
            None => {
                return self.not_possible(out);
            },
        };
        if descriptor.class_id != 15 || descriptor.method_id != 1 {
            return self.not_possible(out);
        }
        let peer = match self.client_system_title {
            Some(t) => t,
            None => {
                return Err(Error::new(ErrorKind::UnexpectedMessage, 0));
            },
        };
        let auth_key = self.auth_key()?;
        let verified = self.protector.verify_hls_gmac(
            &peer,
            auth_key,
            self.server_challenge.as_slice(),
            shown,
        ).is_ok();
        if !verified {
            self.state = ServerState::Closed;
            return self.action_error(invoke_id, ActionResult::ReadWriteDenied, out);
        }
        let title = match self.config.system_title {
            Some(t) => t,
            None => {
                return Err(Error::new(ErrorKind::UnexpectedMessage, 0));
            },
        };
        let ic = self.next_counter()?;
        let mut reply: [u8; 17] = [0; 17];
        let auth_key = self.auth_key()?;
        self.protector.hls_gmac_response(
            &title,
            ic,
            auth_key,
            self.client_challenge.as_slice(),
            &mut reply,
        )?;
        self.state = ServerState::Associated;
        let response = ActionResponse::Normal {
            invoke_id,
            response: ActionResponseWithOptionalData {
                result: ActionResult::Success,
                return_parameters: Some(
                    GetDataResult::Data(Data::OctetString(reply.as_slice())),
                ),
            },
        };
        let apdu = Apdu::ActionResponse(response);
        assert(apdu@ =~= ApduV::ActionResponse(
            ActionResponseV::Normal {
                invoke_id,
                response: ActionResponseWithOptionalDataV {
                    result: ActionResult::Success,
                    return_parameters: Some(GetDataResultV::Data(DataV::OctetString(reply@))),
                },
            },
        ));
        self.send(&apdu, out)
    }
}

impl<P: CryptoProvider> ServerV<P> {
    /// What an AARQ comes to: the cryptography forgets the dedicated key of the last
    /// association, is handed the one that the client delivers, and draws a challenge where
    /// one is due.
    pub open spec fn opens<S: ObjectStore>(
        self,
        aarq: AarqV,
        store: S,
        x: ExchangeV<P>,
        after: S,
    ) -> bool {
        exists|forgotten: P, keyed: Option<P>, challenge: Result<Seq<u8>>|
            {
                &&& forgets(self.crypto, forgotten)
                &&& self.cleared(forgotten).keys(aarq, keyed)
                &&& self.cleared(forgotten).drawn(aarq, keyed, challenge)
                &&& #[trigger] self.associates(
                    aarq,
                    forgotten,
                    keyed,
                    challenge,
                    store,
                    x,
                    after,
                )
            }
    }

    /// What an APDU comes to that has to be an AARQ.
    pub open spec fn called<S: ObjectStore>(
        self,
        apdu: Seq<u8>,
        store: S,
        x: ExchangeV<P>,
        after: S,
    ) -> bool {
        match whole(Aarq::parse(Cursor::start(apdu))) {
            Err(e) => after == store && x.next == self && x.fails(e),
            Ok(aarq) => self.opens(aarq, store, x, after),
        }
    }

    /// What an RLRQ comes to: the cryptography forgets the dedicated key.
    pub open spec fn ends<S: ObjectStore>(
        self,
        apdu: Seq<u8>,
        store: S,
        x: ExchangeV<P>,
        after: S,
    ) -> bool {
        if whole(Rlrq::parse(Cursor::start(apdu))) is Err {
            self.releases(apdu, self.crypto, store, x, after)
        } else {
            exists|forgotten: P|
                forgets(self.crypto, forgotten) && #[trigger] self.releases(
                    apdu,
                    forgotten,
                    store,
                    x,
                    after,
                )
        }
    }
}

} // verus!
