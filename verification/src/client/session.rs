//! The client session.

use vstd::prelude::*;

use crate::acse::{
    Aare, Aarq, ApplicationContext, AssociationResult, AuthMechanism, Diagnostic, ReleaseReason,
    Rlrq, UserDiagnostic,
};
use crate::axdr::data::Data;
use crate::bytes::copy_into;
use crate::codec::{extend, BoundedWriter, Decode, Encode, Error, ErrorKind, Reader, Result, Writer};
use crate::obis::Obis;
use crate::security::counter::{InvocationCounter, ReplayWindow};
use crate::security::keys::{Secret, SystemTitle};
use crate::security::protect::{Protector, SecurityPolicy};
use crate::security::wrap::{protect_apdu, unprotect_apdu, Incoming, Outgoing};
use crate::security::{draw, CryptoProvider};
use crate::xdlms::apdu::Apdu;
use crate::xdlms::ciphering::CipheredService;
use crate::xdlms::ids::{InvokeId, LongInvokeId};
use crate::xdlms::initiate::{Conformance, InitiateRequest, InitiateResponse, DLMS_VERSION};
use crate::xdlms::result::{ActionResult, DataAccessResult, ExceptionResponse};
use crate::xdlms::service::{
    AccessResponseSpecification, ActionRequest, ActionResponse, ActionResponseWithOptionalData,
    BlockResult, GetDataResult, GetResponse, MethodDescriptor, ReadRequest, ReadResult,
    SetResponse, VariableAccess, WriteResult,
};
use crate::xdlms::tag::ApduTag;
#[allow(unused_imports)]
use super::blocks::{SenderV, TargetV};
#[allow(unused_imports)]
use crate::acse::{AareV, AarqV};
#[allow(unused_imports)]
use crate::axdr::data::DataV;
#[allow(unused_imports)]
use crate::codec::{lemma_then, not_built, whole, Cursor};
#[allow(unused_imports)]
use crate::security::draws;
#[allow(unused_imports)]
use crate::security::counter::WindowV;
#[allow(unused_imports)]
use crate::security::protect::{hls_check_of, hls_reply_of, protected_by};
#[allow(unused_imports)]
use crate::security::rustcrypto::unsupported;
#[allow(unused_imports)]
use crate::security::wrap::{title_view, unexpected, unwrapped_by, wrapped_by, IncomingV, OutgoingV};
#[allow(unused_imports)]
use crate::xdlms::apdu::ApduV;
#[allow(unused_imports)]
use crate::xdlms::ciphering::CipheredServiceV;
#[allow(unused_imports)]
use crate::xdlms::initiate::{InitiateRequestV, InitiateResponseV};
#[allow(unused_imports)]
use crate::xdlms::list::{enc_run, fits_run, opt_view, views};
#[allow(unused_imports)]
use crate::xdlms::service::{
    AccessResponseSpecificationV, ActionRequestV, ActionResponseV, ActionResponseWithOptionalDataV,
    BlockResultV, GetDataResultV, GetResponseV, MethodDescriptorV, ReadRequestV, ReadResultV,
    SetResponseV, VariableAccessV, WriteResultV,
};
#[allow(unused_imports)]
use crate::xdlms::tag::tag_of;

pub use crate::acse::Referencing;

verus! {

/// The APDUs a client accepts from a server with no protection on them, even in a
/// ciphered association.
///
/// The ACSE ones precede the association and cannot be protected as APDUs — their
/// user-information is protected instead. `exception-response` is here because it has no
/// ciphered tag of its own: a server that has not negotiated `general-protection` has no
/// way to protect one, and refusing it means a ciphered client turns every server
/// refusal into a decode error and never learns what the meter actually said. It carries
/// no data and changes no state on this side; it is a diagnostic, and it is treated as
/// an unauthenticated one.
pub open spec fn plain_from_server() -> Seq<ApduTag> {
    seq![ApduTag::Aare, ApduTag::ReleaseResponse, ApduTag::ExceptionResponse]
}

/// What the AARE's user information may be when the association is not ciphered.
pub open spec fn plain_initiate() -> Seq<ApduTag> {
    seq![ApduTag::InitiateResponse, ApduTag::ConfirmedServiceError]
}

/// What the session is doing.
#[derive(Debug, Clone, Copy, PartialEq, Eq, Structural)]
pub enum SessionState {
    /// No association.
    Idle,
    /// An AARQ has gone out and the AARE has not come back.
    Associating,
    /// High level security: the challenges have been exchanged and the client's reply
    /// to the server's challenge is outstanding.
    AuthenticatingHls,
    /// Ready for services.
    Associated,
    /// A release request has gone out.
    Releasing,
    /// The association is over. The server refused, or it was released.
    Closed,
}

/// What the client must do next in the association handshake.
#[derive(Debug, Clone, Copy, PartialEq, Eq, Structural)]
pub enum AssociationStep {
    /// The association is open.
    Established,
    /// High level security requires a reply to the server's challenge; call
    /// [`ClientSession::hls_reply_request`].
    HlsReplyRequired,
    /// The server refused, with its reason.
    Rejected {
        /// Accepted, permanently rejected or transiently rejected.
        result: AssociationResult,
        /// Why.
        diagnostic: Diagnostic,
    },
    /// The server answered the AARQ with an exception rather than an AARE, so the
    /// association was never attempted.
    ///
    /// The case worth acting on is `invocation-counter-error`: it carries the counter
    /// the server expects next, and a client whose stored value went stale can move to it
    /// with [`ClientSession::set_invocation_counter`] and associate again. The exception is
    /// unprotected and anyone can forge one, so the value is *reported* rather than
    /// applied.
    Exception(ExceptionResponse),
}

/// What a response carried.
#[verifier::ext_equal]
#[allow(inconsistent_fields)]
pub enum ResponseV {
    /// A value.
    Data(DataV),
    /// One result per attribute.
    DataList(Seq<GetDataResultV>),
    /// The server refused the request.
    DataError(DataAccessResult),
    /// One block of a value.
    Block {
        /// True when no further block follows.
        last: bool,
        /// This block's number.
        number: u32,
        /// The fragment.
        data: Seq<u8>,
    },
    /// One result per attribute written.
    ResultList(Seq<DataAccessResult>),
    /// One outcome per method.
    ActionResults(Seq<ActionResponseWithOptionalDataV>),
    /// The server took a block.
    BlockAccepted {
        /// The block the server acknowledged.
        number: u32,
    },
    /// The answers to an access request.
    Access {
        /// One value per item.
        data: Seq<DataV>,
        /// One outcome per item.
        results: Seq<AccessResponseSpecificationV>,
    },
    /// One answer per entry of a short-name read.
    ReadResults(Seq<ReadResultV>),
    /// One outcome per entry of a short-name write.
    WriteResults(Seq<WriteResultV>),
    /// A write succeeded.
    Done,
    /// A method was invoked.
    ActionResult {
        /// Whether the method ran.
        result: ActionResult,
        /// What it returned, if anything.
        value: Option<DataV>,
    },
    /// The server refused the APDU itself.
    Exception(ExceptionResponse),
    /// The server released the association.
    Released,
}

/// What a response carried.
#[derive(Debug, Clone, PartialEq)]
#[allow(inconsistent_fields)]
pub enum Response<'a> {
    /// A value.
    Data(Data<'a>),
    /// One result per attribute of a [`ClientSession::get_request_with_list`], in the
    /// order they were asked for. Each is a value or the reason there is none.
    DataList(Vec<GetDataResult<'a>>),
    /// The server refused the request.
    DataError(DataAccessResult),
    /// One block of a value; ask for the next with
    /// [`ClientSession::get_next_block_request`].
    Block {
        /// True when no further block follows.
        last: bool,
        /// This block's number.
        number: u32,
        /// The fragment.
        data: &'a [u8],
    },
    /// One result per attribute of a [`ClientSession::set_request_with_list`], in the
    /// order they were asked for.
    ResultList(Vec<DataAccessResult>),
    /// One outcome per method of a [`ClientSession::action_request_with_list`], in the
    /// order they were asked for.
    ActionResults(Vec<ActionResponseWithOptionalData<'a>>),
    /// The server took a block of a long SET or ACTION parameter and wants the next;
    /// send it with [`ClientSession::next_block_request`].
    BlockAccepted {
        /// The block the server acknowledged.
        number: u32,
    },
    /// The answers to an [`ClientSession::access_request`], one per item in the order
    /// they were asked for.
    Access {
        /// One value per item — `null-data` where the item produced none.
        data: Vec<Data<'a>>,
        /// One outcome per item.
        results: Vec<AccessResponseSpecification>,
    },
    /// One answer per entry of a [`ClientSession::read_request`], in order.
    ReadResults(Vec<ReadResult<'a>>),
    /// One outcome per entry of a [`ClientSession::write_request`], in order.
    WriteResults(Vec<WriteResult>),
    /// A write or an invocation succeeded.
    Done,
    /// A method returned a value.
    ActionResult {
        /// Whether the method ran.
        result: ActionResult,
        /// What it returned, if anything.
        value: Option<Data<'a>>,
    },
    /// The server refused the APDU itself.
    Exception(ExceptionResponse),
    /// The server released the association.
    Released,
}

impl<'a> View for Response<'a> {
    type V = ResponseV;

    open spec fn view(&self) -> ResponseV {
        match *self {
            Response::Data(d) => ResponseV::Data(d@),
            Response::DataList(l) => ResponseV::DataList(views(l@)),
            Response::DataError(e) => ResponseV::DataError(e),
            Response::Block { last, number, data } => ResponseV::Block { last, number, data: data@ },
            Response::ResultList(l) => ResponseV::ResultList(views(l@)),
            Response::ActionResults(l) => ResponseV::ActionResults(views(l@)),
            Response::BlockAccepted { number } => ResponseV::BlockAccepted { number },
            Response::Access { data, results } => ResponseV::Access {
                data: views(data@),
                results: views(results@),
            },
            Response::ReadResults(l) => ResponseV::ReadResults(views(l@)),
            Response::WriteResults(l) => ResponseV::WriteResults(views(l@)),
            Response::Done => ResponseV::Done,
            Response::ActionResult { result, value } => ResponseV::ActionResult {
                result,
                value: opt_view(value),
            },
            Response::Exception(e) => ResponseV::Exception(e),
            Response::Released => ResponseV::Released,
        }
    }
}

/// What a method returned, where it returned a value.
pub open spec fn returned(o: Option<GetDataResultV>) -> Option<DataV> {
    match o {
        Some(GetDataResultV::Data(d)) => Some(d),
        _ => None,
    }
}

/// What an APDU means as a response; nothing where it is not one.
#[verifier::opaque]
pub open spec fn response_of(a: ApduV) -> Option<ResponseV> {
    match a {
        ApduV::GetResponse(GetResponseV::Normal { result, .. }) => Some(
            match result {
                GetDataResultV::Data(d) => ResponseV::Data(d),
                GetDataResultV::Error(e) => ResponseV::DataError(e),
            },
        ),
        ApduV::GetResponse(GetResponseV::WithList { results, .. }) => Some(
            ResponseV::DataList(results),
        ),
        ApduV::GetResponse(GetResponseV::WithDataBlock { block, .. }) => Some(
            match block.result {
                BlockResultV::RawData(data) => ResponseV::Block {
                    last: block.last_block,
                    number: block.block_number,
                    data,
                },
                BlockResultV::Error(e) => ResponseV::DataError(e),
            },
        ),
        ApduV::SetResponse(SetResponseV::Normal { result, .. })
        | ApduV::SetResponse(SetResponseV::LastDataBlock { result, .. }) => Some(
            if result.is_success() {
                ResponseV::Done
            } else {
                ResponseV::DataError(result)
            },
        ),
        ApduV::SetResponse(SetResponseV::DataBlock { block_number, .. }) => Some(
            ResponseV::BlockAccepted { number: block_number },
        ),
        ApduV::SetResponse(SetResponseV::WithList { results, .. })
        | ApduV::SetResponse(SetResponseV::LastDataBlockWithList { results, .. }) => Some(
            ResponseV::ResultList(results),
        ),
        ApduV::ActionResponse(ActionResponseV::Normal { response, .. }) => Some(
            ResponseV::ActionResult {
                result: response.result,
                value: returned(response.return_parameters),
            },
        ),
        ApduV::ActionResponse(ActionResponseV::NextPblock { block_number, .. }) => Some(
            ResponseV::BlockAccepted { number: block_number },
        ),
        ApduV::ActionResponse(ActionResponseV::WithList { responses, .. }) => Some(
            ResponseV::ActionResults(responses),
        ),
        ApduV::ActionResponse(ActionResponseV::WithPblock { block, .. }) => Some(
            ResponseV::Block {
                last: block.last_block,
                number: block.block_number,
                data: block.raw_data,
            },
        ),
        ApduV::AccessResponse(r) => Some(
            ResponseV::Access { data: r.data, results: r.response_specification },
        ),
        ApduV::ReadResponse(r) => Some(ResponseV::ReadResults(r.results)),
        ApduV::WriteResponse(r) => Some(ResponseV::WriteResults(r.results)),
        ApduV::ExceptionResponse(e) => Some(ResponseV::Exception(e)),
        ApduV::Rlre(_) => Some(ResponseV::Released),
        _ => None,
    }
}

/// The invoke id a confirmed response echoes, for the services that carry one.
///
/// Nothing for the APDUs that have no invoke id at all — the ACSE ones, the exception
/// response, and ACCESS, which uses a long invoke id of its own.
#[verifier::opaque]
pub open spec fn echoed_id(a: ApduV) -> Option<InvokeId> {
    match a {
        ApduV::GetResponse(GetResponseV::Normal { invoke_id, .. })
        | ApduV::GetResponse(GetResponseV::WithDataBlock { invoke_id, .. })
        | ApduV::GetResponse(GetResponseV::WithList { invoke_id, .. })
        | ApduV::SetResponse(SetResponseV::Normal { invoke_id, .. })
        | ApduV::SetResponse(SetResponseV::DataBlock { invoke_id, .. })
        | ApduV::SetResponse(SetResponseV::LastDataBlock { invoke_id, .. })
        | ApduV::SetResponse(SetResponseV::LastDataBlockWithList { invoke_id, .. })
        | ApduV::SetResponse(SetResponseV::WithList { invoke_id, .. })
        | ApduV::ActionResponse(ActionResponseV::Normal { invoke_id, .. })
        | ApduV::ActionResponse(ActionResponseV::WithPblock { invoke_id, .. })
        | ApduV::ActionResponse(ActionResponseV::WithList { invoke_id, .. })
        | ApduV::ActionResponse(ActionResponseV::NextPblock { invoke_id, .. }) => Some(invoke_id),
        _ => None,
    }
}

/// How the client identifies itself and what it demands.
#[derive(Clone)]
pub struct ClientConfig {
    /// The client service access point: 0x10 public, 0x20 reader, 0x30 management.
    pub client_sap: u8,
    /// The client's system title. Required for high level security and for any
    /// ciphered association, because it is half of every nonce the client sends under.
    pub system_title: Option<SystemTitle>,
    /// Which authentication mechanism to propose.
    pub mechanism: AuthMechanism,
    /// The low-level-security password, or the high-level-security shared secret.
    pub password: Option<Secret>,
    /// What protection to apply.
    ///
    /// Set `dedicated` to propose a dedicated-key association; the key itself comes from
    /// the provider, and an association is refused rather than opened if the provider
    /// has none.
    pub security: SecurityPolicy,
    /// The largest APDU the client will accept.
    pub max_pdu_size: u16,
    /// What the client proposes it can do.
    pub conformance: Conformance,
    /// How objects are addressed.
    pub referencing: Referencing,
    /// How long a challenge to send. Eight to sixty-four bytes are allowed;
    /// shorter is weaker and there is no reason to go below sixteen.
    pub challenge_len: usize,
    /// The last invocation counter this client used before it started.
    ///
    /// Zero is right only for a client that has never sent under these keys. Restarting
    /// from zero against an unchanged key reuses every nonce it used before, and a
    /// repeated GCM nonce leaks the authentication subkey. Persist
    /// [`ClientSession::invocation_counter`] and restore it here.
    pub invocation_counter: u32,
    /// How far out of order the server's invocation counters may arrive.
    ///
    /// Zero — strictly increasing — is right for HDLC and TCP.
    pub replay_window: u32,
}

impl Default for ClientConfig {
    fn default() -> (r: Self)
        ensures
            r == (ClientConfig {
                client_sap: 0x10,
                system_title: None,
                mechanism: AuthMechanism::Lowest,
                password: None,
                security: SecurityPolicy::NONE(),
                max_pdu_size: 1024,
                conformance: Conformance::CLIENT_DEFAULT(),
                referencing: Referencing::LogicalName,
                challenge_len: 16,
                invocation_counter: 0,
                replay_window: 0,
            }),
    {
        ClientConfig {
            client_sap: 0x10,
            system_title: None,
            mechanism: AuthMechanism::Lowest,
            password: None,
            security: SecurityPolicy::NONE(),
            max_pdu_size: 1024,
            conformance: Conformance::CLIENT_DEFAULT(),
            referencing: Referencing::LogicalName,
            challenge_len: 16,
            invocation_counter: 0,
            replay_window: 0,
        }
    }
}

/// What a session is, apart from the size of the APDUs it can build.
#[verifier::ext_equal]
#[verifier::reject_recursive_types(P)]
pub struct SessionV<P> {
    /// How it identifies itself and what it demands.
    pub config: ClientConfig,
    /// Its cryptography.
    pub crypto: P,
    /// The protection in force for service APDUs.
    pub policy: SecurityPolicy,
    /// What it is doing.
    pub state: SessionState,
    /// The number of the last invocation.
    pub invoke_id: u8,
    /// The invocation that has not been answered yet.
    pub outstanding: Option<InvokeId>,
    /// The last counter that it sent under.
    pub counter: u32,
    /// Which of the server's counters are spent.
    pub window: WindowV,
    /// What both sides agreed to.
    pub negotiated: Option<InitiateResponseV>,
    /// The server's title.
    pub server_title: Option<Seq<u8>>,
    /// The challenge that the server has to answer.
    pub client_challenge: Seq<u8>,
    /// The challenge that the client has to answer.
    pub server_challenge: Seq<u8>,
}

/// A window that remembers nothing, of a width that it can answer for.
pub open spec fn fresh_window(width: u32) -> WindowV {
    WindowV {
        highest: None,
        width: if width > crate::security::counter::REPLAY_WIDTH_MAX {
            crate::security::counter::REPLAY_WIDTH_MAX
        } else {
            width
        },
        seen: Set::empty(),
    }
}

/// What is built before an invocation is numbered.
#[verifier::ext_equal]
pub struct DraftV {
    /// The encoding.
    pub bytes: Seq<u8>,
    /// Whether there is one.
    pub ok: bool,
}

impl DraftV {
    /// Whether it can be built in so many bytes.
    pub open spec fn built(self, n: nat) -> bool {
        self.ok && self.bytes.len() <= n
    }

    /// What building it in so many bytes comes to.
    pub open spec fn tried(self, n: nat, r: Result<()>) -> bool {
        match r {
            Ok(_) => self.built(n),
            Err(e) => !self.built(n) && not_built(e, self.bytes, self.ok, n),
        }
    }
}

impl<P: CryptoProvider> SessionV<P> {
    /// A session that has not done anything yet. Before the association is open there is
    /// no dedicated key at either end, so it starts on the global key set.
    pub open spec fn start(config: ClientConfig, crypto: P) -> SessionV<P> {
        SessionV {
            config,
            crypto,
            policy: config.security.global(),
            state: SessionState::Idle,
            invoke_id: 0,
            outstanding: None,
            counter: config.invocation_counter,
            window: fresh_window(config.replay_window),
            negotiated: None,
            server_title: None,
            client_challenge: Seq::empty(),
            server_challenge: Seq::empty(),
        }
    }

    /// Whether the server has agreed to something, or has not been asked yet.
    pub open spec fn agreed(self, c: Conformance) -> bool {
        self.negotiated matches Some(n) ==> n.negotiated_conformance.contains(c)
    }

    /// Whether the general wrapper may be used, which the server has to have agreed to.
    pub open spec fn general_agreed(self) -> bool {
        self.negotiated matches Some(n) && n.negotiated_conformance.contains(
            Conformance::GENERAL_PROTECTION(),
        )
    }

    /// Why a service that needs all of `needed` cannot be asked for now, if it cannot.
    pub open spec fn not_ready(self, needed: Seq<Conformance>) -> Option<Error> {
        if self.state != SessionState::Associated {
            Some(unexpected())
        } else if forall|i: int| 0 <= i < needed.len() ==> self.agreed(#[trigger] needed[i]) {
            None
        } else {
            Some(unsupported())
        }
    }

    /// The session once it has numbered a new invocation.
    pub open spec fn fresh(self) -> SessionV<P> {
        let id = (self.invoke_id.wrapping_add(1) & 0x0F) as u8;
        SessionV { invoke_id: id, outstanding: Some(InvokeId::confirmed(id)), ..self }
    }

    /// The session once it has numbered a new access request.
    pub open spec fn fresh_long(self) -> SessionV<P> {
        let id = (self.invoke_id.wrapping_add(1) & 0x0F) as u8;
        SessionV { invoke_id: id, outstanding: None, ..self }
    }

    /// The session with no invocation outstanding.
    pub open spec fn quiet(self) -> SessionV<P> {
        SessionV { outstanding: None, ..self }
    }

    /// What goes out with a message under the next counter.
    pub open spec fn outgoing(self) -> OutgoingV {
        OutgoingV {
            system_title: self.config.system_title->0@,
            invocation_counter: (self.counter + 1) as u32,
            auth_key: self.crypto.auth_bytes(),
            policy: self.policy,
            general_allowed: self.general_agreed(),
        }
    }

    /// What is known of a message that comes in, under a policy and with so much allowed
    /// in the clear.
    pub open spec fn incoming(self, policy: SecurityPolicy, allowed: Seq<ApduTag>) -> IncomingV {
        IncomingV {
            local: title_view(self.config.system_title),
            peer: self.server_title,
            auth_key: self.crypto.auth_bytes(),
            policy,
            plain_allowed: allowed,
        }
    }

    /// What a plain APDU is sent as, into a buffer with so much room, and the session
    /// afterwards: a protected message spends a counter whether it could be built or not.
    pub open spec fn emitted(self, plain: Seq<u8>, room: nat) -> (Result<Seq<u8>>, SessionV<P>) {
        if self.config.security.is_none() {
            if plain.len() <= room {
                (Ok(plain), self)
            } else {
                (
                    Err(
                        Error {
                            kind: ErrorKind::BufferTooSmall {
                                needed: (plain.len() - room) as usize,
                            },
                            offset: 0,
                        },
                    ),
                    self,
                )
            }
        } else if self.config.system_title is None {
            (Err(unexpected()), self)
        } else if self.counter == u32::MAX {
            (Err(unsupported()), self)
        } else {
            (
                wrapped_by(&self.crypto, self.outgoing(), plain, room),
                SessionV { counter: (self.counter + 1) as u32, ..self },
            )
        }
    }

    /// What sending an APDU comes to. One that the session cannot build, because it has no
    /// encoding or is longer than the `n` bytes it builds one in, is refused and changes
    /// nothing. Otherwise the buffer holds what is emitted, and is left alone where nothing
    /// is.
    pub open spec fn sends(
        self,
        apdu: ApduV,
        n: nat,
        before: Seq<u8>,
        after: Seq<u8>,
        then: SessionV<P>,
        r: Result<usize>,
    ) -> bool {
        if !apdu.fits() || apdu.enc().len() > n {
            &&& then == self
            &&& after == before
            &&& r matches Err(e) && not_built(e, apdu.enc(), apdu.fits(), n)
        } else {
            let (sent, next) = self.emitted(apdu.enc(), before.len());
            &&& then == next
            &&& match sent {
                Ok(w) => r == Ok::<usize, Error>(w.len() as usize) && w.len() <= before.len()
                    && after == w + before.skip(w.len() as int),
                Err(e) => r == Err::<usize, Error>(e) && after == before,
            }
        }
    }

    /// What asking for a service comes to that needs all of `needed`: it is refused where
    /// it is not to be had, and sent otherwise.
    pub open spec fn asks(
        self,
        needed: Seq<Conformance>,
        numbered: SessionV<P>,
        apdu: ApduV,
        n: nat,
        before: Seq<u8>,
        after: Seq<u8>,
        then: SessionV<P>,
        r: Result<usize>,
    ) -> bool {
        match self.not_ready(needed) {
            Some(e) => then == self && after == before && r == Err::<usize, Error>(e),
            None => numbered.sends(apdu, n, before, after, then, r),
        }
    }

    /// What asking for a service with lists comes to. The lists are held against what is
    /// `valid` before what `more` they need of the server, and are built as a `draft` before
    /// the invocation is numbered.
    pub open spec fn asks_list(
        self,
        refused: Option<Error>,
        valid: bool,
        more: Seq<Conformance>,
        draft: DraftV,
        numbered: SessionV<P>,
        apdu: ApduV,
        n: nat,
        before: Seq<u8>,
        after: Seq<u8>,
        then: SessionV<P>,
        r: Result<usize>,
    ) -> bool {
        match refused {
            Some(e) => then == self && after == before && r == Err::<usize, Error>(e),
            None => if !valid {
                &&& then == self
                &&& after == before
                &&& r == Err::<usize, Error>(Error { kind: ErrorKind::InvalidValue, offset: 0 })
            } else if self.not_ready(more) is Some {
                then == self && after == before && r == Err::<usize, Error>(
                    self.not_ready(more)->0,
                )
            } else if !draft.built(n) {
                &&& then == self
                &&& after == before
                &&& r matches Err(e) && not_built(e, draft.bytes, draft.ok, n)
            } else {
                numbered.sends(apdu, n, before, after, then, r)
            },
        }
    }

    /// Why a short-name service that needs all of `needed` cannot be asked for now, if it
    /// cannot: the referencing is chosen once, in the context that was proposed.
    pub open spec fn not_ready_short(self, needed: Seq<Conformance>) -> Option<Error> {
        if self.state != SessionState::Associated || !(self.config.referencing is ShortName) {
            Some(unexpected())
        } else {
            self.not_ready(needed)
        }
    }

    /// The context that the session proposes.
    pub open spec fn context(self) -> ApplicationContext {
        ApplicationContext::for_referencing(
            self.config.referencing,
            !self.config.security.is_none(),
        )
    }

    /// What the session proposes in its InitiateRequest.
    pub open spec fn initiate(self) -> InitiateRequestV {
        InitiateRequestV {
            dedicated_key: if self.config.security.dedicated() && !self.config.security.is_none() {
                self.crypto.dedicated_bytes()
            } else {
                None
            },
            response_allowed: true,
            proposed_quality_of_service: None,
            proposed_dlms_version: DLMS_VERSION,
            proposed_conformance: self.config.conformance,
            client_max_receive_pdu_size: self.config.max_pdu_size,
        }
    }

    /// The InitiateRequest, its tag included.
    pub open spec fn initiate_plain(self) -> Seq<u8> {
        seq![0x01u8] + self.initiate().enc()
    }

    /// Why the session does not even try to associate, if it does not: it could form no
    /// nonce, or has no dedicated key to offer.
    pub open spec fn cannot_associate(self) -> Option<Error> {
        let ciphered = !self.config.security.is_none();
        if (ciphered || self.config.mechanism.is_high_level())
            && self.config.system_title is None {
            Some(unexpected())
        } else if ciphered && self.config.security.dedicated()
            && self.crypto.dedicated_bytes() is None {
            Some(unsupported())
        } else {
            None
        }
    }

    /// Whether the InitiateRequest can be built: there are sixty-four bytes to do it in.
    pub open spec fn initiate_fits(self) -> bool {
        self.initiate().fits() && self.initiate_plain().len() <= 64
    }

    /// The user information of the AARQ, and the session afterwards: the InitiateRequest as
    /// it is, or protected under the global key set and the next counter.
    pub open spec fn user_information(self) -> (Result<Seq<u8>>, SessionV<P>) {
        if self.config.security.is_none() {
            (Ok(self.initiate_plain()), self)
        } else if self.counter == u32::MAX {
            (Err(unsupported()), self)
        } else {
            let ic = (self.counter + 1) as u32;
            let next = SessionV { counter: ic, ..self };
            match self.crypto.auth_bytes() {
                None => (Err(unsupported()), next),
                Some(k) => match protected_by(
                    &self.crypto,
                    self.config.security.global(),
                    self.config.system_title->0@,
                    ic,
                    k,
                    self.initiate_plain(),
                ) {
                    Err(e) => (Err(e), next),
                    Ok(payload) => (
                        Ok(
                            seq![ApduTag::GloInitiateRequest.code()] + (CipheredServiceV {
                                security_control: self.config.security.control(),
                                invocation_counter: ic,
                                payload,
                            }).enc(),
                        ),
                        next,
                    ),
                },
            }
        }
    }

    /// The AARQ, given its user information and the challenge that was drawn.
    pub open spec fn request(self, user_information: Seq<u8>, challenge: Seq<u8>) -> AarqV {
        let m = self.config.mechanism;
        AarqV {
            application_context: Some(self.context()),
            called_ap_title: None,
            calling_ap_title: title_view(self.config.system_title),
            calling_ae_qualifier: None,
            sender_acse_requirements: !(m is Lowest),
            mechanism_name: if m is Lowest {
                None
            } else {
                Some(m)
            },
            calling_authentication_value: if m.is_high_level() {
                Some(challenge)
            } else {
                match self.config.password {
                    Some(p) => Some(p@),
                    None => None,
                }
            },
            user_information: Some(user_information),
        }
    }

    /// Why an accepted answer is not the one that was asked for, if it is not.
    pub open spec fn mismatch(self, aare: AareV) -> Option<UserDiagnostic> {
        if aare.application_context matches Some(c) && c != self.context() {
            Some(UserDiagnostic::ApplicationContextNameNotSupported)
        } else if aare.mechanism_name matches Some(m) && m != self.config.mechanism {
            Some(UserDiagnostic::AuthenticationMechanismNameNotRecognised)
        } else if !(self.config.mechanism is Lowest) && aare.mechanism_name is None {
            Some(UserDiagnostic::AuthenticationRequired)
        } else {
            None
        }
    }

    /// The session once the association is over.
    pub open spec fn closed(self) -> SessionV<P> {
        SessionV { state: SessionState::Closed, ..self }
    }

    /// What the user information of the AARE comes to: the session afterwards, and the
    /// step that ends the handshake where it does.
    pub open spec fn negotiates(self, aare: AareV, info: Seq<u8>) -> (
        Result<Option<AssociationStep>>,
        SessionV<P>,
    ) {
        let (opened, window) = unwrapped_by(
            &self.crypto,
            self.incoming(self.config.security.global(), plain_initiate()),
            self.window,
            info,
            256,
        );
        let next = SessionV { window, ..self };
        match opened {
            Err(e) => (Err(e), next),
            Ok(plain) => if plain.len() == 0 {
                (Err(Error { kind: ErrorKind::Truncated { needed: 1 }, offset: 0 }), next)
            } else {
                let rest = Cursor::start(plain).adv(1);
                match tag_of(plain[0]) {
                    Some(ApduTag::InitiateResponse) => match InitiateResponseV::p(rest) {
                        Err(e) => (Err(e), next),
                        Ok((resp, _)) => if resp.negotiated_dlms_version != DLMS_VERSION {
                            (Err(unsupported()), next)
                        } else {
                            (Ok(None), SessionV { negotiated: Some(resp), ..next })
                        },
                    },
                    Some(ApduTag::ConfirmedServiceError) => (
                        Ok(
                            Some(
                                AssociationStep::Rejected {
                                    result: AssociationResult::RejectedPermanent,
                                    diagnostic: aare.diagnostic,
                                },
                            ),
                        ),
                        next.closed(),
                    ),
                    _ => (Err(unexpected()), next),
                }
            },
        }
    }

    /// What follows the negotiation: the association's own protection applies, and either
    /// it is open or the server's challenge is to be answered.
    pub open spec fn settles(self, aare: AareV) -> (Result<AssociationStep>, SessionV<P>) {
        let next = if self.config.security.dedicated() {
            SessionV { policy: self.policy.with_dedicated(true), ..self }
        } else {
            self
        };
        if self.config.mechanism.is_high_level() {
            match aare.responding_authentication_value {
                None => (Err(unexpected()), next),
                Some(challenge) => if challenge.len() > 64 {
                    (Err(Error { kind: ErrorKind::InvalidLength, offset: 0 }), next)
                } else {
                    (
                        Ok(AssociationStep::HlsReplyRequired),
                        SessionV {
                            server_challenge: challenge,
                            state: SessionState::AuthenticatingHls,
                            ..next
                        },
                    )
                },
            }
        } else {
            (
                Ok(AssociationStep::Established),
                SessionV { state: SessionState::Associated, ..next },
            )
        }
    }

    /// What going on with an invocation in flight comes to: there has to be one.
    pub open spec fn continues(
        self,
        apdu: ApduV,
        n: nat,
        before: Seq<u8>,
        after: Seq<u8>,
        then: SessionV<P>,
        r: Result<usize>,
    ) -> bool {
        if self.state != SessionState::Associated || self.outstanding is None {
            then == self && after == before && r == Err::<usize, Error>(unexpected())
        } else {
            self.sends(apdu, n, before, after, then, r)
        }
    }

    /// What sending the next block of a transfer comes to: the first is a new invocation, the
    /// others go on with it, and the transfer advances where the block goes out.
    pub open spec fn sends_next(
        self,
        sender: SenderV,
        n: nat,
        before: Seq<u8>,
        after: Seq<u8>,
        then: SessionV<P>,
        next: SenderV,
        r: Result<usize>,
    ) -> bool {
        &&& next == if r is Ok {
            sender.advanced()
        } else {
            sender
        }
        &&& if !(self.state is Associated) || sender.done() {
            then == self && after == before && r == Err::<usize, Error>(unexpected())
        } else if sender.block == 0 {
            self.fresh().sends(
                sender.request(self.fresh().outstanding->0),
                n,
                before,
                after,
                then,
                r,
            )
        } else {
            self.continues(sender.request(self.outstanding->0), n, before, after, then, r)
        }
    }

    /// What a read by short name comes to.
    pub open spec fn reads(
        self,
        items: Seq<VariableAccessV>,
        n: nat,
        before: Seq<u8>,
        after: Seq<u8>,
        then: SessionV<P>,
        r: Result<usize>,
    ) -> bool {
        self.asks_list(
            self.not_ready_short(seq![Conformance::READ()]),
            items.len() > 0,
            Seq::empty(),
            (DraftV { bytes: enc_run::<VariableAccess>(items), ok: fits_run::<VariableAccess>(items) }),
            self.quiet(),
            ApduV::ReadRequest(ReadRequestV { specification: items }),
            n,
            before,
            after,
            then,
            r,
        )
    }

    /// What beginning a transfer comes to that carries so much more header.
    pub open spec fn transfers(
        self,
        needed: Seq<Conformance>,
        extra: nat,
        target: TargetV,
        bytes: Seq<u8>,
        n: nat,
        r: Result<SenderV>,
    ) -> bool {
        match self.not_ready(needed) {
            Some(e) => r == Err::<SenderV, Error>(e),
            None => if self.fragment(extra, n) == 0 {
                r == Err::<SenderV, Error>(Error { kind: ErrorKind::InvalidLength, offset: 0 })
            } else {
                r == Ok::<SenderV, Error>(
                    SenderV {
                        target,
                        bytes,
                        sent: 0,
                        block: 0,
                        fragment: self.fragment(extra, n),
                    },
                )
            },
        }
    }

    /// What an AARE comes to.
    pub open spec fn answered(self, aare: AareV) -> (Result<AssociationStep>, SessionV<P>) {
        if aare.responding_ap_title matches Some(t) && t.len() != 8 {
            (Err(Error { kind: ErrorKind::InvalidLength, offset: 0 }), self)
        } else {
            let s = if aare.responding_ap_title is Some {
                SessionV { server_title: aare.responding_ap_title, ..self }
            } else {
                self
            };
            if !(aare.result is Accepted) {
                (
                    Ok(
                        AssociationStep::Rejected {
                            result: aare.result,
                            diagnostic: aare.diagnostic,
                        },
                    ),
                    s.closed(),
                )
            } else {
                match s.mismatch(aare) {
                    Some(d) => (
                        Ok(
                            AssociationStep::Rejected {
                                result: AssociationResult::RejectedPermanent,
                                diagnostic: Diagnostic::User(d),
                            },
                        ),
                        s.closed(),
                    ),
                    None => match aare.user_information {
                        None => s.settles(aare),
                        Some(info) => {
                            let (outcome, next) = s.negotiates(aare, info);
                            match outcome {
                                Err(e) => (Err(e), next),
                                Ok(Some(step)) => (Ok(step), next),
                                Ok(None) => next.settles(aare),
                            }
                        },
                    },
                }
            }
        }
    }

    /// What the answer to an AARQ comes to, an exception in its place included.
    pub open spec fn associates(self, apdu: Seq<u8>) -> (Result<AssociationStep>, SessionV<P>) {
        if apdu.len() > 0 && apdu[0] == ApduTag::ExceptionResponse.code() {
            match whole(ExceptionResponse::p(Cursor::start(apdu.skip(1)))) {
                Err(e) => (Err(e), self.closed()),
                Ok(x) => (Ok(AssociationStep::Exception(x)), self.closed()),
            }
        } else {
            match whole(Aare::parse(Cursor::start(apdu))) {
                Err(e) => (Err(e), self),
                Ok(aare) => self.answered(aare),
            }
        }
    }

    /// What an APDU from the server opens to, into a buffer with so much room, and the
    /// session afterwards.
    pub open spec fn opens(self, apdu: Seq<u8>, room: nat) -> (Result<Seq<u8>>, SessionV<P>) {
        let (opened, window) = unwrapped_by(
            &self.crypto,
            self.incoming(self.policy, plain_from_server()),
            self.window,
            apdu,
            room,
        );
        (opened, SessionV { window, ..self })
    }

    /// What a decoded APDU comes to as a response to what is outstanding.
    pub open spec fn responds(self, a: ApduV) -> (Result<ResponseV>, SessionV<P>) {
        if self.outstanding matches Some(want) && echoed_id(a) matches Some(got) && got.id()
            != want.id() {
            (Err(unexpected()), self)
        } else {
            match response_of(a) {
                None => (Err(unexpected()), self),
                Some(r) => (
                    Ok(r),
                    if r is Released {
                        self.closed()
                    } else {
                        self
                    },
                ),
            }
        }
    }

    /// What an APDU from the server comes to.
    pub open spec fn handles(self, apdu: Seq<u8>, room: nat) -> (Result<ResponseV>, SessionV<P>) {
        let (opened, next) = self.opens(apdu, room);
        match opened {
            Err(e) => (Err(e), next),
            Ok(plain) => match whole(ApduV::p(Cursor::start(plain))) {
                Err(e) => (Err(e), next),
                Ok(a) => next.responds(a),
            },
        }
    }

    /// What the server's proof comes to, given the answer that should hold it.
    pub open spec fn proves(self, a: ApduV) -> (Result<AssociationStep>, SessionV<P>) {
        match a {
            ApduV::ActionResponse(ActionResponseV::Normal { response, .. }) => {
                if !response.result.is_success() {
                    (
                        Ok(
                            AssociationStep::Rejected {
                                result: AssociationResult::RejectedPermanent,
                                diagnostic: Diagnostic::User(UserDiagnostic::AuthenticationFailure),
                            },
                        ),
                        self.closed(),
                    )
                } else {
                    match returned(response.return_parameters) {
                        None => (Err(unexpected()), self),
                        Some(d) => match d.string() {
                            None => (Err(unexpected()), self),
                            Some(proof_bytes) => if self.server_title is None {
                                (Err(unexpected()), self)
                            } else if self.crypto.auth_bytes() is None {
                                (Err(unsupported()), self)
                            } else {
                                match hls_check_of(
                                    &self.crypto,
                                    self.policy,
                                    self.server_title->0,
                                    self.crypto.auth_bytes()->0,
                                    self.client_challenge,
                                    proof_bytes,
                                ) {
                                    Err(e) => (Err(e), self),
                                    Ok(_) => (
                                        Ok(AssociationStep::Established),
                                        SessionV { state: SessionState::Associated, ..self },
                                    ),
                                }
                            },
                        },
                    }
                }
            },
            _ => (Err(unexpected()), self),
        }
    }

    /// What the server's answer to the client's proof comes to.
    pub open spec fn authenticates(self, apdu: Seq<u8>) -> (Result<AssociationStep>, SessionV<P>) {
        let (opened, next) = self.opens(apdu, 512);
        match opened {
            Err(e) => (Err(e), next),
            Ok(plain) => match whole(ApduV::p(Cursor::start(plain))) {
                Err(e) => (Err(e), next),
                Ok(a) => next.proves(a),
            },
        }
    }

    /// The largest payload of one block, given how much header the transfer carries beyond
    /// the fixed part. Every header field is counted at its longest, and protection at its
    /// worst case.
    pub open spec fn fragment(self, extra: nat, n: nat) -> nat {
        let ceiling = match self.negotiated {
            Some(r) => r.server_max_receive_pdu_size as int,
            None => self.config.max_pdu_size as int,
        };
        let overhead = if self.config.security.is_none() {
            0int
        } else {
            23
        };
        let room = ceiling - 23 - overhead - extra;
        if room < 0 {
            0
        } else if room > n {
            n
        } else {
            room as nat
        }
    }
}

/// One association, from the client's side.
///
/// `N` is the size of the largest plain APDU the session can build. The scratch space for
/// it is taken for one request at a time.
pub struct ClientSession<P, const N: usize> {
    config: ClientConfig,
    protector: Protector<P>,
    state: SessionState,
    invoke_id: u8,
    outstanding: Option<InvokeId>,
    invocation_counter: InvocationCounter,
    peer_replay: ReplayWindow,
    negotiated: Option<InitiateResponse>,
    server_system_title: Option<SystemTitle>,
    client_challenge: Vec<u8>,
    server_challenge: Vec<u8>,
}

impl<P: CryptoProvider, const N: usize> View for ClientSession<P, N> {
    type V = SessionV<P>;

    closed spec fn view(&self) -> SessionV<P> {
        SessionV {
            config: self.config,
            crypto: self.protector.crypto(),
            policy: self.protector.in_force(),
            state: self.state,
            invoke_id: self.invoke_id,
            outstanding: self.outstanding,
            counter: self.invocation_counter@,
            window: self.peer_replay@,
            negotiated: opt_view(self.negotiated),
            server_title: title_view(self.server_system_title),
            client_challenge: self.client_challenge@,
            server_challenge: self.server_challenge@,
        }
    }
}

impl<P: CryptoProvider, const N: usize> ClientSession<P, N> {
    /// A session that will use `provider` for cryptography.
    pub fn new(config: ClientConfig, provider: P) -> (s: Self)
        ensures
            s@ == SessionV::start(config, provider),
    {
        // Before the association is open there is no dedicated key at either end, so the
        // protector starts on the global key set and is switched over in
        // `handle_associate_response`.
        let policy = config.security.global();
        let invocation_counter = InvocationCounter::new(config.invocation_counter);
        let peer_replay = ReplayWindow::new(config.replay_window);
        ClientSession {
            config,
            protector: Protector::new(provider, policy),
            state: SessionState::Idle,
            invoke_id: 0,
            outstanding: None,
            invocation_counter,
            peer_replay,
            negotiated: None,
            server_system_title: None,
            client_challenge: Vec::new(),
            server_challenge: Vec::new(),
        }
    }

    /// What the session is doing.
    #[must_use]
    pub fn state(&self) -> (r: SessionState)
        ensures
            r == self@.state,
    {
        self.state
    }

    /// What both sides agreed to, once the association is open.
    #[must_use]
    pub fn negotiated(&self) -> (r: Option<&InitiateResponse>)
        ensures
            match r {
                Some(n) => self@.negotiated == Some(n@),
                None => self@.negotiated is None,
            },
    {
        self.negotiated.as_ref()
    }

    /// The server's system title, learned from the AARE.
    #[must_use]
    pub fn server_system_title(&self) -> (r: Option<SystemTitle>)
        ensures
            title_view(r) == self@.server_title,
    {
        self.server_system_title
    }

    /// The invocation counter the client last sent under.
    ///
    /// Persist this. Restoring a lower value after a restart reuses a nonce; see
    /// [`ClientConfig::invocation_counter`].
    #[must_use]
    pub fn invocation_counter(&self) -> (r: u32)
        ensures
            r == self@.counter,
    {
        self.invocation_counter.get()
    }

    /// Start the invocation counter from a known value, after reading the meter's
    /// record of it or restoring one from storage.
    ///
    /// Only ever move it *forward*. There is no check here, because a client that has
    /// just read a higher value out of the meter's own counter object is doing the
    /// right thing and a client that sets it backwards is burning the key either way.
    pub fn set_invocation_counter(&mut self, value: u32)
        ensures
            final(self)@ == (SessionV { counter: value, ..old(self)@ }),
    {
        self.invocation_counter = InvocationCounter::new(value);
    }

    /// The highest invocation counter accepted from the server, if any.
    #[must_use]
    pub fn peer_invocation_counter(&self) -> (r: Option<u32>)
        ensures
            r == self@.window.highest,
    {
        self.peer_replay.highest()
    }

    fn application_context(&self) -> (r: ApplicationContext)
        ensures
            r == self@.context(),
    {
        ApplicationContext::for_referencing(self.config.referencing, !self.config.security.is_none())
    }

    pub(super) fn next_invoke_id(&mut self) -> (id: InvokeId)
        ensures
            final(self)@ == old(self)@.fresh(),
            final(self)@.outstanding == Some(id),
    {
        self.invoke_id = self.invoke_id.wrapping_add(1) & 0x0F;
        let id = InvokeId::confirmed(self.invoke_id);
        self.outstanding = Some(id);
        id
    }

    pub(super) fn next_long_invoke_id(&mut self) -> (id: LongInvokeId)
        ensures
            final(self)@ == old(self)@.fresh_long(),
            id == LongInvokeId::new(final(self)@.invoke_id as u32).confirmed(),
    {
        self.invoke_id = self.invoke_id.wrapping_add(1) & 0x0F;
        // The short invoke id is not in play for an ACCESS exchange, so nothing is
        // outstanding under one: leaving a stale id here would have a later block
        // request continue an invocation that is over.
        self.outstanding = None;
        LongInvokeId::new(self.invoke_id as u32).confirmed()
    }

    pub(super) fn require_associated(&self) -> (r: Result<()>)
        ensures
            r is Ok == (self@.state is Associated),
            r matches Err(e) ==> e == unexpected(),
    {
        if self.state == SessionState::Associated {
            Ok(())
        } else {
            Err(Error::new(ErrorKind::UnexpectedMessage, 0))
        }
    }

    /// Refuse a short-name service in an association that named objects the other way.
    ///
    /// The referencing mode is chosen once, in the application context the AARQ
    /// proposes; a `read-request` sent into a logical-name association asks a question
    /// the peer has not agreed to answer, and a peer that answered anyway would be
    /// answering a different one.
    pub(super) fn require_short_name(&self) -> (r: Result<()>)
        ensures
            r is Ok == (self@.config.referencing is ShortName),
            r matches Err(e) ==> e == unexpected(),
    {
        if self.config.referencing == Referencing::ShortName {
            Ok(())
        } else {
            Err(Error::new(ErrorKind::UnexpectedMessage, 0))
        }
    }

    pub(super) fn require_conformance(&self, required: Conformance) -> (r: Result<()>)
        ensures
            r is Ok == self@.agreed(required),
            r matches Err(e) ==> e == unsupported(),
    {
        match &self.negotiated {
            Some(n) => n.negotiated_conformance.require(required),
            None => Ok(()),
        }
    }

    /// Whether `general-glo-ciphering` may be used, which the peer has to have agreed
    /// to: it is the `general-protection` bit of the conformance block and nothing else.
    fn general_protection_agreed(&self) -> (r: bool)
        ensures
            r == self@.general_agreed(),
    {
        match &self.negotiated {
            Some(n) => n.negotiated_conformance.contains(Conformance::GENERAL_PROTECTION()),
            None => false,
        }
    }

    fn auth_key(&self) -> (r: Result<&[u8]>)
        ensures
            match r {
                Ok(k) => self@.crypto.auth_bytes() == Some(k@),
                Err(e) => self@.crypto.auth_bytes() is None && e == unsupported(),
            },
    {
        match self.protector.auth_key() {
            Some(k) => Ok(k),
            None => Err(Error::new(ErrorKind::Unsupported, 0)),
        }
    }

    fn next_counter(&mut self) -> (r: Result<u32>)
        ensures
            match r {
                Ok(v) => v == old(self)@.counter + 1 && final(self)@ == (SessionV {
                    counter: v,
                    ..old(self)@
                }),
                Err(e) => old(self)@.counter == u32::MAX && final(self)@ == old(self)@ && e
                    == unsupported(),
            },
    {
        self.invocation_counter.next()
    }

    /// The invocation that a block request goes on with.
    pub(super) fn continued(&self) -> (r: Result<InvokeId>)
        ensures
            match r {
                Ok(id) => self@.outstanding == Some(id),
                Err(e) => self@.outstanding is None && e == unexpected(),
            },
    {
        match self.outstanding {
            Some(id) => Ok(id),
            None => Err(Error::new(ErrorKind::UnexpectedMessage, 0)),
        }
    }

    /// Note that no invocation is outstanding.
    pub(super) fn end_invocation(&mut self)
        ensures
            final(self)@ == old(self)@.quiet(),
    {
        self.outstanding = None;
    }

    /// The largest payload a block of a long SET or ACTION parameter may carry, with
    /// `extra` bytes of header this transfer carries beyond the fixed part — the encoded
    /// selective-access descriptor of a blocked SET, which rides in the first block and is
    /// as long as the selector makes it.
    ///
    /// Deliberately conservative: every header field is counted at its longest, and
    /// protection at its worst case. A few wasted bytes per block cost one extra block
    /// on a very long transfer; a block one byte too large is a request the server drops.
    ///
    /// Every block is sized as though it carried the descriptor, not just the first.
    /// That wastes a few bytes per block on a long transfer; sizing only the first block
    /// down would make the later ones a different size for no gain, and getting *that*
    /// arithmetic wrong produces a request the server drops with nothing to point at.
    pub(super) fn max_fragment_less(&self, extra: usize) -> (r: Result<usize>)
        ensures
            match r {
                Ok(n) => n == self@.fragment(extra as nat, N as nat) && n > 0,
                Err(e) => self@.fragment(extra as nat, N as nat) == 0 && e == (Error {
                    kind: ErrorKind::InvalidLength,
                    offset: 0,
                }),
            },
    {
        // The block header at its longest: APDU tag, request choice, invoke id, the
        // attribute or method descriptor, the selective-access usage flag, the last-block
        // flag, the four-byte block number, and a length prefix in its longest form.
        let header: usize = 1 + 1 + 1 + 9 + 1 + 1 + 4 + 5;
        // The `glo-` tag, the ciphered service's length prefix at its longest, the
        // security control byte, the invocation counter and the GCM tag.
        let overhead: usize = if self.config.security.is_none() {
            0
        } else {
            1 + 5 + 1 + 4 + 12
        };
        let ceiling: usize = match &self.negotiated {
            Some(n) => n.server_max_receive_pdu_size as usize,
            None => self.config.max_pdu_size as usize,
        };
        let room: usize = ceiling.saturating_sub(header).saturating_sub(overhead).saturating_sub(
            extra,
        );
        let fragment: usize = if room < N {
            room
        } else {
            N
        };
        // A negotiated PDU size that leaves no room for a payload cannot carry a blocked
        // transfer at all, and a transfer of zero-length blocks would never finish.
        if fragment == 0 {
            return Err(Error::new(ErrorKind::InvalidLength, 0));
        }
        Ok(fragment)
    }

    /// Protect and emit a plain APDU.
    fn send_plain(&mut self, plain: &[u8], out: &mut [u8]) -> (r: Result<usize>)
        ensures
            final(self)@ == old(self)@.emitted(plain@, old(out)@.len()).1,
            match old(self)@.emitted(plain@, old(out)@.len()).0 {
                Ok(w) => r == Ok::<usize, Error>(w.len() as usize) && w.len() <= old(out)@.len()
                    && final(out)@ == w + old(out)@.skip(w.len() as int),
                Err(e) => r == Err::<usize, Error>(e) && final(out)@ == old(out)@,
            },
    {
        if self.config.security.is_none() {
            let room: usize = out.len();
            if plain.len() > room {
                return Err(
                    Error::new(ErrorKind::BufferTooSmall { needed: plain.len() - room }, 0),
                );
            }
            copy_into(out, plain);
            return Ok(plain.len());
        }
        let title = match self.config.system_title {
            Some(t) => t,
            None => {
                return Err(Error::new(ErrorKind::UnexpectedMessage, 0));
            },
        };
        let ic = self.next_counter()?;
        let ctx = Outgoing {
            system_title: title,
            invocation_counter: ic,
            auth_key: self.protector.auth_key(),
            policy: self.protector.policy(),
            general_allowed: self.general_protection_agreed(),
        };
        assert(ctx@ =~= old(self)@.outgoing());
        protect_apdu(&self.protector, &ctx, plain, out)
    }

    /// Encode an APDU, protecting it when the policy says so.
    pub(super) fn send(&mut self, apdu: &Apdu<'_>, out: &mut [u8]) -> (r: Result<usize>)
        ensures
            old(self)@.sends(apdu@, N as nat, old(out)@, final(out)@, final(self)@, r),
    {
        let mut w = BoundedWriter::new(N);
        assert(apdu.enc() == apdu@.enc() && apdu.encodable() == apdu@.fits());
        apdu.encode(&mut w)?;
        let plain = w.finish();
        assert(plain@ =~= apdu@.enc());
        self.send_plain(plain.as_slice(), out)
    }

    /// Remove protection from an incoming APDU, if it has any.
    fn unprotect(&mut self, apdu: &[u8], room: usize) -> (r: Result<Vec<u8>>)
        ensures
            final(self)@ == old(self)@.opens(apdu@, room as nat).1,
            match r {
                Ok(v) => old(self)@.opens(apdu@, room as nat).0 == Ok::<Seq<u8>, Error>(v@)
                    && v@.len() <= room,
                Err(e) => old(self)@.opens(apdu@, room as nat).0 == Err::<Seq<u8>, Error>(e),
            },
    {
        let allowed = [ApduTag::Aare, ApduTag::ReleaseResponse, ApduTag::ExceptionResponse];
        let ctx = Incoming {
            local: self.config.system_title,
            peer: self.server_system_title,
            auth_key: self.protector.auth_key(),
            policy: self.protector.policy(),
            plain_allowed: allowed.as_slice(),
        };
        assert(ctx@ =~= self@.incoming(self@.policy, plain_from_server()));
        unprotect_apdu(&self.protector, &ctx, &mut self.peer_replay, apdu, room)
    }

    /// Remove protection from the AARE's user information, which is protected with the
    /// global key set even when the association will use a dedicated one.
    fn unprotect_initiate(&mut self, apdu: &[u8], room: usize) -> (r: Result<Vec<u8>>)
        ensures
            ({
                let (opened, window) = unwrapped_by(
                    &old(self)@.crypto,
                    old(self)@.incoming(old(self)@.config.security.global(), plain_initiate()),
                    old(self)@.window,
                    apdu@,
                    room as nat,
                );
                &&& final(self)@ == (SessionV { window, ..old(self)@ })
                &&& match r {
                    Ok(v) => opened == Ok::<Seq<u8>, Error>(v@),
                    Err(e) => opened == Err::<Seq<u8>, Error>(e),
                }
            }),
    {
        let allowed = [ApduTag::InitiateResponse, ApduTag::ConfirmedServiceError];
        let ctx = Incoming {
            local: self.config.system_title,
            peer: self.server_system_title,
            auth_key: self.protector.auth_key(),
            policy: self.config.security.global(),
            plain_allowed: allowed.as_slice(),
        };
        assert(ctx@ =~= self@.incoming(self@.config.security.global(), plain_initiate()));
        unprotect_apdu(&self.protector, &ctx, &mut self.peer_replay, apdu, room)
    }
}

/// What an APDU means as a response; nothing where it is not one.
fn response<'b>(apdu: Apdu<'b>) -> (r: Option<Response<'b>>)
    ensures
        match r {
            Some(x) => response_of(apdu@) == Some(x@),
            None => response_of(apdu@) is None,
        },
{
    reveal(response_of);
    match apdu {
        Apdu::GetResponse(GetResponse::Normal { result, .. }) => match result {
            GetDataResult::Data(d) => Some(Response::Data(d)),
            GetDataResult::Error(e) => Some(Response::DataError(e)),
        },
        Apdu::GetResponse(GetResponse::WithList { results, .. }) => Some(
            Response::DataList(results),
        ),
        Apdu::GetResponse(GetResponse::WithDataBlock { block, .. }) => match block.result {
            BlockResult::RawData(data) => Some(
                Response::Block { last: block.last_block, number: block.block_number, data },
            ),
            BlockResult::Error(e) => Some(Response::DataError(e)),
        },
        Apdu::SetResponse(SetResponse::Normal { result, .. })
        | Apdu::SetResponse(SetResponse::LastDataBlock { result, .. }) => {
            if result.is_success() {
                Some(Response::Done)
            } else {
                Some(Response::DataError(result))
            }
        },
        Apdu::SetResponse(SetResponse::DataBlock { block_number, .. }) => Some(
            Response::BlockAccepted { number: block_number },
        ),
        Apdu::SetResponse(SetResponse::WithList { results, .. })
        | Apdu::SetResponse(SetResponse::LastDataBlockWithList { results, .. }) => Some(
            Response::ResultList(results),
        ),
        Apdu::ActionResponse(ActionResponse::Normal { response, .. }) => {
            let value = match response.return_parameters {
                Some(GetDataResult::Data(d)) => Some(d),
                _ => None,
            };
            Some(Response::ActionResult { result: response.result, value })
        },
        Apdu::ActionResponse(ActionResponse::NextPblock { block_number, .. }) => Some(
            Response::BlockAccepted { number: block_number },
        ),
        Apdu::ActionResponse(ActionResponse::WithList { responses, .. }) => Some(
            Response::ActionResults(responses),
        ),
        Apdu::ActionResponse(ActionResponse::WithPblock { block, .. }) => Some(
            Response::Block {
                last: block.last_block,
                number: block.block_number,
                data: block.raw_data,
            },
        ),
        Apdu::AccessResponse(r) => Some(
            Response::Access { data: r.data, results: r.response_specification },
        ),
        Apdu::ReadResponse(r) => Some(Response::ReadResults(r.results)),
        Apdu::WriteResponse(r) => Some(Response::WriteResults(r.results)),
        Apdu::ExceptionResponse(e) => Some(Response::Exception(e)),
        Apdu::Rlre(_) => Some(Response::Released),
        _ => None,
    }
}

/// The invoke id a confirmed response echoes, for the services that carry one.
fn response_invoke_id(apdu: &Apdu<'_>) -> (r: Option<InvokeId>)
    ensures
        r == echoed_id(apdu@),
{
    reveal(echoed_id);
    match apdu {
        Apdu::GetResponse(GetResponse::Normal { invoke_id, .. })
        | Apdu::GetResponse(GetResponse::WithDataBlock { invoke_id, .. })
        | Apdu::GetResponse(GetResponse::WithList { invoke_id, .. })
        | Apdu::SetResponse(SetResponse::Normal { invoke_id, .. })
        | Apdu::SetResponse(SetResponse::DataBlock { invoke_id, .. })
        | Apdu::SetResponse(SetResponse::LastDataBlock { invoke_id, .. })
        | Apdu::SetResponse(SetResponse::LastDataBlockWithList { invoke_id, .. })
        | Apdu::SetResponse(SetResponse::WithList { invoke_id, .. })
        | Apdu::ActionResponse(ActionResponse::Normal { invoke_id, .. })
        | Apdu::ActionResponse(ActionResponse::WithPblock { invoke_id, .. })
        | Apdu::ActionResponse(ActionResponse::WithList { invoke_id, .. })
        | Apdu::ActionResponse(ActionResponse::NextPblock { invoke_id, .. }) => Some(*invoke_id),
        _ => None,
    }
}

impl<P: CryptoProvider, const N: usize> ClientSession<P, N> {
    /// The user information of the AARQ: the InitiateRequest, protected on its own where
    /// the association is.
    fn initiate_information(&mut self) -> (r: Result<Vec<u8>>)
        ensures
            ({
                let s = old(self)@;
                match s.cannot_associate() {
                    Some(e) => final(self)@ == s && r == Err::<Vec<u8>, Error>(e),
                    None => if !s.initiate_fits() {
                        &&& final(self)@ == s
                        &&& r matches Err(e) && not_built(
                            e,
                            s.initiate_plain(),
                            s.initiate().fits(),
                            64,
                        )
                    } else {
                        &&& final(self)@ == s.user_information().1
                        &&& match r {
                            Ok(v) => s.user_information().0 == Ok::<Seq<u8>, Error>(v@),
                            Err(e) => s.user_information().0 == Err::<Seq<u8>, Error>(e),
                        }
                    },
                }
            }),
    {
        let ciphered = !self.config.security.is_none();
        if (ciphered || self.config.mechanism.is_high_level())
            && self.config.system_title.is_none() {
            // GMAC's nonce and every ciphered nonce start with the system title, so
            // without one there is nothing to protect under.
            return Err(Error::new(ErrorKind::UnexpectedMessage, 0));
        }
        // The dedicated key travels inside the ciphered InitiateRequest, so it is only
        // ever offered in a ciphered context — sending one in the clear would publish it.
        let dedicated_key = if ciphered && self.config.security.dedicated() {
            match self.protector.provider().dedicated_key() {
                Some(k) => Some(k),
                None => {
                    return Err(Error::new(ErrorKind::Unsupported, 0));
                },
            }
        } else {
            None
        };
        let initiate = InitiateRequest {
            dedicated_key,
            response_allowed: true,
            proposed_quality_of_service: None,
            proposed_dlms_version: DLMS_VERSION,
            proposed_conformance: self.config.conformance,
            client_max_receive_pdu_size: self.config.max_pdu_size,
        };
        assert(initiate@ =~= self@.initiate());
        assert(initiate.enc() == initiate@.enc() && initiate.encodable() == initiate@.fits());
        // The InitiateRequest is protected on its own, inside the user information.
        let mut w = BoundedWriter::new(64);
        let ghost w0 = w.sink();
        w.write_u8(ApduTag::InitiateRequest.as_u8())?;
        let ghost w1 = w.sink();
        let written = initiate.encode(&mut w);
        proof {
            lemma_then(
                w0,
                w1,
                w.sink(),
                seq![0x01u8],
                initiate@.enc(),
                initiate@.fits(),
                written,
            );
        }
        written?;
        let plain = w.finish();
        assert(plain@ =~= self@.initiate_plain());
        if !ciphered {
            return Ok(plain);
        }
        let ic = self.next_counter()?;
        let title = match self.config.system_title {
            Some(t) => t,
            None => {
                return Err(Error::new(ErrorKind::UnexpectedMessage, 0));
            },
        };
        // Always the *global* key set, whatever the association will use afterwards:
        // the dedicated key is delivered inside this very message, so the peer
        // cannot yet hold it. Protecting the InitiateRequest with it produces a
        // frame nobody can open.
        let auth_key = self.auth_key()?;
        let payload = self.protector.seal(
            self.config.security.global(),
            &title,
            ic,
            auth_key,
            plain.as_slice(),
        )?;
        let service = CipheredService {
            security_control: self.config.security.control(),
            invocation_counter: ic,
            payload: payload.as_slice(),
        };
        assert(service.enc() == service@.enc() && service.encodable() == service@.fits());
        let mut info: Vec<u8> = Vec::new();
        info.write_u8(ApduTag::GloInitiateRequest.as_u8())?;
        service.encode(&mut info)?;
        assert(info@ =~= seq![ApduTag::GloInitiateRequest.code()] + service@.enc());
        Ok(info)
    }

    /// Write the AARQ around its user information, with the challenge that the session
    /// holds.
    fn write_aarq(&mut self, info: &[u8], out: &mut [u8]) -> (r: Result<usize>)
        ensures
            ({
                let s = old(self)@;
                let aarq = s.request(info@, s.client_challenge);
                if aarq.encodable() && aarq.enc().len() <= old(out)@.len() {
                    &&& r == Ok::<usize, Error>(aarq.enc().len() as usize)
                    &&& final(out)@ == aarq.enc() + old(out)@.skip(aarq.enc().len() as int)
                    &&& final(self)@ == (SessionV { state: SessionState::Associating, ..s })
                } else {
                    &&& r matches Err(e) && not_built(
                        e,
                        aarq.enc(),
                        aarq.encodable(),
                        old(out)@.len(),
                    )
                    &&& final(out)@ == old(out)@
                    &&& final(self)@ == s
                }
            }),
    {
        let title = match &self.config.system_title {
            Some(t) => Some(t.as_bytes().as_slice()),
            None => None,
        };
        let value = if self.config.mechanism.is_high_level() {
            Some(self.client_challenge.as_slice())
        } else {
            match &self.config.password {
                Some(p) => Some(p.expose()),
                None => None,
            }
        };
        let lowest = matches!(self.config.mechanism, AuthMechanism::Lowest);
        let aarq = Aarq {
            application_context: Some(self.application_context()),
            called_ap_title: None,
            calling_ap_title: title,
            calling_ae_qualifier: None,
            sender_acse_requirements: !lowest,
            mechanism_name: if lowest {
                None
            } else {
                Some(self.config.mechanism)
            },
            calling_authentication_value: value,
            user_information: Some(info),
        };
        assert(aarq@ =~= self@.request(info@, self@.client_challenge));
        assert(aarq.enc() == aarq@.enc() && aarq.encodable() == aarq@.encodable());
        let mut w = BoundedWriter::new(out.len());
        aarq.encode(&mut w)?;
        let bytes = w.finish();
        assert(bytes@ =~= aarq@.enc());
        copy_into(out, bytes.as_slice());
        self.state = SessionState::Associating;
        Ok(bytes.len())
    }
}

impl<P: CryptoProvider> SessionV<P> {
    /// What building the AARQ comes to, given the challenge that was drawn for it. The user
    /// information comes first, and spends a counter where it is protected.
    pub open spec fn requests(
        self,
        challenge: Seq<u8>,
        before: Seq<u8>,
        after: Seq<u8>,
        then: SessionV<P>,
        r: Result<usize>,
    ) -> bool {
        if self.cannot_associate() is Some {
            &&& then == self
            &&& after == before
            &&& r == Err::<usize, Error>(self.cannot_associate()->0)
        } else if !self.initiate_fits() {
            &&& then == self
            &&& after == before
            &&& r matches Err(e) && not_built(
                e,
                self.initiate_plain(),
                self.initiate().fits(),
                64,
            )
        } else {
            let (info, spent) = self.user_information();
            match info {
                Err(e) => then == spent && after == before && r == Err::<usize, Error>(e),
                Ok(info) => {
                    let next = if self.config.mechanism.is_high_level() {
                        SessionV { client_challenge: challenge, ..spent }
                    } else {
                        spent
                    };
                    let aarq = self.request(info, challenge);
                    if aarq.encodable() && aarq.enc().len() <= before.len() {
                        &&& then == SessionV { state: SessionState::Associating, ..next }
                        &&& after == aarq.enc() + before.skip(aarq.enc().len() as int)
                        &&& r == Ok::<usize, Error>(aarq.enc().len() as usize)
                    } else {
                        &&& then == next
                        &&& after == before
                        &&& r matches Err(e) && not_built(
                            e,
                            aarq.enc(),
                            aarq.encodable(),
                            before.len(),
                        )
                    }
                },
            }
        }
    }

    /// Whether asking for an association comes to drawing a challenge: high level security
    /// takes one, once there is nothing else to refuse.
    pub open spec fn draws_challenge(self) -> bool {
        &&& self.config.mechanism.is_high_level()
        &&& self.cannot_associate() is None
        &&& self.initiate_fits()
        &&& self.user_information().0 is Ok
    }

    /// How long a challenge the session draws.
    pub open spec fn challenge_len(self) -> nat {
        if self.config.challenge_len < 8 {
            8
        } else if self.config.challenge_len > 64 {
            64
        } else {
            self.config.challenge_len as nat
        }
    }

    /// What answering the server's challenge comes to.
    pub open spec fn replies(
        self,
        n: nat,
        before: Seq<u8>,
        after: Seq<u8>,
        then: SessionV<P>,
        r: Result<usize>,
    ) -> bool {
        if self.state != SessionState::AuthenticatingHls {
            then == self && after == before && r == Err::<usize, Error>(unexpected())
        } else if !(self.config.mechanism is HighGmac) {
            then == self && after == before && r == Err::<usize, Error>(unsupported())
        } else if self.config.system_title is None {
            then == self && after == before && r == Err::<usize, Error>(unexpected())
        } else if self.counter == u32::MAX {
            then == self && after == before && r == Err::<usize, Error>(unsupported())
        } else {
            let spent = SessionV { counter: (self.counter + 1) as u32, ..self };
            if self.crypto.auth_bytes() is None {
                then == spent && after == before && r == Err::<usize, Error>(unsupported())
            } else {
                match hls_reply_of(
                    &self.crypto,
                    self.policy,
                    self.config.system_title->0@,
                    spent.counter,
                    self.crypto.auth_bytes()->0,
                    self.server_challenge,
                ) {
                    Err(e) => then == spent && after == before && r == Err::<usize, Error>(e),
                    Ok(reply) => spent.fresh().sends(
                        ApduV::ActionRequest(
                            ActionRequestV::Normal {
                                invoke_id: spent.fresh().outstanding->0,
                                descriptor: hls_method(),
                                parameters: Some(DataV::OctetString(reply)),
                            },
                        ),
                        n,
                        before,
                        after,
                        then,
                        r,
                    ),
                }
            }
        }
    }
}

/// `reply_to_HLS_authentication`: the first method of the current association.
pub open spec fn hls_method() -> MethodDescriptorV {
    MethodDescriptorV {
        class_id: 15,
        instance_id: seq![0u8, 0, 40, 0, 0, 255],
        method_id: 1,
    }
}

impl<P: CryptoProvider, const N: usize> ClientSession<P, N> {
    /// Build the AARQ that opens the association.
    ///
    /// For high level security the challenge is drawn from the provider; the session keeps
    /// it, and what goes out is what [`ClientSession::associate_request_with`] sends for it.
    ///
    /// # Errors
    /// When the buffer is too small; when a ciphered association or high level security is
    /// configured without a system title; or when a challenge is needed and the provider has
    /// no entropy, with the provider's own error.
    #[verifier::rlimit(40)]
    pub fn associate_request(&mut self, out: &mut [u8]) -> (r: Result<usize>)
        ensures
            !old(self)@.draws_challenge() ==> old(self)@.requests(
                Seq::empty(),
                old(out)@,
                final(out)@,
                final(self)@,
                r,
            ),
            old(self)@.draws_challenge() ==> exists|challenge: Result<Seq<u8>>|
                {
                    &&& #[trigger] draws(
                        old(self)@.crypto,
                        old(self)@.challenge_len(),
                        challenge,
                    )
                    &&& match challenge {
                        Ok(c) => old(self)@.requests(c, old(out)@, final(out)@, final(self)@, r),
                        Err(e) => r == Err::<usize, Error>(e) && final(out)@ == old(out)@
                            && final(self)@ == old(self)@.user_information().1,
                    }
                },
    {
        let info = match self.initiate_information() {
            Ok(v) => v,
            Err(e) => {
                assert(old(self)@.requests(
                    Seq::empty(),
                    old(out)@,
                    out@,
                    self@,
                    Err::<usize, Error>(e),
                ));
                return Err(e);
            },
        };
        if self.config.mechanism.is_high_level() {
            let len: usize = if self.config.challenge_len < 8 {
                8
            } else if self.config.challenge_len > 64 {
                64
            } else {
                self.config.challenge_len
            };
            let ghost crypto = old(self)@.crypto;
            let ghost n = old(self)@.challenge_len();
            assert(n == len && self@.crypto == crypto);
            match draw(self.protector.provider(), len) {
                Ok(v) => {
                    let ghost some: Result<Seq<u8>> = Ok(v@);
                    assert(draws(crypto, n, some));
                    self.client_challenge = v;
                },
                Err(e) => {
                    let ghost none: Result<Seq<u8>> = Err(e);
                    assert(draws(crypto, n, none));
                    return Err(e);
                },
            }
        }
        let r = self.write_aarq(info.as_slice(), out);
        assert(old(self)@.requests(self@.client_challenge, old(out)@, out@, self@, r));
        r
    }

    /// Build the AARQ around a challenge that was drawn elsewhere.
    ///
    /// The challenge goes out, and is kept for the server's proof, only where the mechanism
    /// is one of high level security.
    ///
    /// # Errors
    /// As [`ClientSession::associate_request`], but for the entropy.
    pub fn associate_request_with(&mut self, challenge: &[u8], out: &mut [u8]) -> (r: Result<usize>)
        ensures
            old(self)@.requests(challenge@, old(out)@, final(out)@, final(self)@, r),
    {
        let info = self.initiate_information()?;
        if self.config.mechanism.is_high_level() {
            let mut kept: Vec<u8> = Vec::new();
            extend(&mut kept, challenge);
            assert(kept@ =~= challenge@);
            self.client_challenge = kept;
        }
        self.write_aarq(info.as_slice(), out)
    }

    /// What follows the negotiation.
    fn settle(&mut self, aare: &Aare<'_>) -> (r: Result<AssociationStep>)
        ensures
            (r, final(self)@) == old(self)@.settles(aare@),
    {
        // From here on the association's own protection applies, which is the dedicated
        // key set when one was delivered in the InitiateRequest.
        if self.config.security.dedicated() {
            self.protector.set_dedicated(true);
        }
        if self.config.mechanism.is_high_level() {
            let challenge = match aare.responding_authentication_value {
                Some(c) => c,
                None => {
                    return Err(Error::new(ErrorKind::UnexpectedMessage, 0));
                },
            };
            if challenge.len() > 64 {
                return Err(Error::new(ErrorKind::InvalidLength, 0));
            }
            let mut kept: Vec<u8> = Vec::new();
            extend(&mut kept, challenge);
            assert(kept@ =~= challenge@);
            self.server_challenge = kept;
            self.state = SessionState::AuthenticatingHls;
            return Ok(AssociationStep::HlsReplyRequired);
        }
        self.state = SessionState::Associated;
        Ok(AssociationStep::Established)
    }

    /// What the user information of the AARE comes to.
    fn negotiate(&mut self, aare: &Aare<'_>, info: &[u8]) -> (r: Result<Option<AssociationStep>>)
        ensures
            (r, final(self)@) == old(self)@.negotiates(aare@, info@),
    {
        // The InitiateResponse is protected globally for the same reason the request
        // is, so it is unprotected under the global policy rather than the
        // association's.
        let plain = self.unprotect_initiate(info, 256)?;
        let mut r = Reader::new(plain.as_slice());
        let tag = r.u8()?;
        assert(r@ == Cursor::start(plain@).adv(1));
        match ApduTag::from_u8(tag) {
            Some(ApduTag::InitiateResponse) => {
                assert(InitiateResponse::parse(r@) == InitiateResponseV::p(r@));
                let resp = InitiateResponse::decode(&mut r)?;
                resp.check_version()?;
                self.negotiated = Some(resp);
                Ok(None)
            },
            Some(ApduTag::ConfirmedServiceError) => {
                self.state = SessionState::Closed;
                Ok(
                    Some(
                        AssociationStep::Rejected {
                            result: AssociationResult::RejectedPermanent,
                            diagnostic: aare.diagnostic,
                        },
                    ),
                )
            },
            _ => Err(Error::new(ErrorKind::UnexpectedMessage, 0)),
        }
    }

    /// Why an accepted association is not the one that was asked for, if it is not.
    ///
    /// The context says whether the association is ciphered and how objects are named, and
    /// the mechanism says how the client proves who it is; a server that answers "yes"
    /// to a *different* pair has not agreed to anything the client proposed. The
    /// ACSE fields are not protected, so this is not by itself an authentication —
    /// it is the check that stops the handshake continuing under the wrong
    /// assumptions, which is where a downgrade would otherwise be laundered into a
    /// session that never notices.
    fn mismatch(&self, aare: &Aare<'_>) -> (r: Option<UserDiagnostic>)
        ensures
            r == self@.mismatch(aare@),
    {
        if let Some(got) = aare.application_context {
            if got != self.application_context() {
                return Some(UserDiagnostic::ApplicationContextNameNotSupported);
            }
        }
        if let Some(got) = aare.mechanism_name {
            if got != self.config.mechanism {
                return Some(UserDiagnostic::AuthenticationMechanismNameNotRecognised);
            }
        }
        // A server that names no mechanism has not accepted the one that was proposed.

        if !matches!(self.config.mechanism, AuthMechanism::Lowest) && aare.mechanism_name.is_none() {
            return Some(UserDiagnostic::AuthenticationRequired);
        }
        None
    }

    /// Consume the AARE and say what happens next.
    ///
    /// # Errors
    /// When the APDU is not an AARE, when the negotiated version is not one this crate
    /// speaks, or when the server's InitiateResponse cannot be unprotected.
    pub fn handle_associate_response(&mut self, apdu: &[u8]) -> (r: Result<AssociationStep>)
        ensures
            (r, final(self)@) == old(self)@.associates(apdu@),
    {
        // A server that cannot even get as far as an AARE answers with an exception.
        // Decoding it as a malformed AARE would turn the one message that says how to
        // recover into an invalid tag.
        if apdu.len() > 0 && apdu[0] == ApduTag::ExceptionResponse.as_u8() {
            self.state = SessionState::Closed;
            let body: &[u8] = vstd::slice::slice_subrange(apdu, 1, apdu.len());
            assert(body@ =~= apdu@.skip(1));
            assert(ExceptionResponse::parse(Cursor::start(body@)) == ExceptionResponse::p(
                Cursor::start(body@),
            ));
            let x = ExceptionResponse::from_bytes(body)?;
            return Ok(AssociationStep::Exception(x));
        }
        let aare = Aare::from_bytes(apdu)?;
        if let Some(title) = aare.responding_ap_title {
            self.server_system_title = Some(SystemTitle::from_slice(title)?);
        }
        if !aare.is_accepted() {
            self.state = SessionState::Closed;
            return Ok(
                AssociationStep::Rejected { result: aare.result, diagnostic: aare.diagnostic },
            );
        }
        if let Some(d) = self.mismatch(&aare) {
            self.state = SessionState::Closed;
            return Ok(
                AssociationStep::Rejected {
                    result: AssociationResult::RejectedPermanent,
                    diagnostic: Diagnostic::User(d),
                },
            );
        }
        if let Some(info) = aare.user_information {
            if let Some(step) = self.negotiate(&aare, info)? {
                return Ok(step);
            }
        }
        self.settle(&aare)
    }

    /// Build the `reply_to_HLS_authentication` request that answers the server's
    /// challenge.
    ///
    /// # Errors
    /// When the mechanism is not one this crate implements, or the session is not at
    /// this step.
    pub fn hls_reply_request(&mut self, out: &mut [u8]) -> (r: Result<usize>)
        ensures
            old(self)@.replies(N as nat, old(out)@, final(out)@, final(self)@, r),
    {
        if self.state != SessionState::AuthenticatingHls {
            return Err(Error::new(ErrorKind::UnexpectedMessage, 0));
        }
        if !matches!(self.config.mechanism, AuthMechanism::HighGmac) {
            // The other mechanisms are named by the standard but their exact
            // constructions are not known here, and a guessed construction authenticates
            // nothing.
            return Err(Error::new(ErrorKind::Unsupported, 0));
        }
        let title = match self.config.system_title {
            Some(t) => t,
            None => {
                return Err(Error::new(ErrorKind::UnexpectedMessage, 0));
            },
        };
        let ic = self.next_counter()?;
        let mut reply: [u8; 17] = [0; 17];
        let auth_key = self.auth_key()?;
        self.protector.hls_gmac_response(
            &title,
            ic,
            auth_key,
            self.server_challenge.as_slice(),
            &mut reply,
        )?;
        let name = Obis::new(0, 0, 40, 0, 0, 255);
        let descriptor = MethodDescriptor::new(15, name, 1);
        let request = ActionRequest::Normal {
            invoke_id: self.next_invoke_id(),
            descriptor,
            parameters: Some(Data::OctetString(reply.as_slice())),
        };
        assert(descriptor@ =~= hls_method());
        self.send(&Apdu::ActionRequest(request), out)
    }

    /// Consume the server's answer to the HLS reply.
    ///
    /// # Errors
    /// [`ErrorKind::BadTag`] when the server's proof does not match the challenge the
    /// client sent — which means the server does not hold the key, and the association
    /// must not be used.
    pub fn handle_hls_reply_response(&mut self, apdu: &[u8]) -> (r: Result<AssociationStep>)
        ensures
            (r, final(self)@) == old(self)@.authenticates(apdu@),
    {
        let plain = self.unprotect(apdu, 512)?;
        assert(Apdu::parse(Cursor::start(plain@)) == ApduV::p(Cursor::start(plain@)));
        let apdu = Apdu::from_bytes(plain.as_slice())?;
        let response = match apdu {
            Apdu::ActionResponse(ActionResponse::Normal { response, .. }) => response,
            _ => {
                return Err(Error::new(ErrorKind::UnexpectedMessage, 0));
            },
        };
        if !response.result.is_success() {
            self.state = SessionState::Closed;
            return Ok(
                AssociationStep::Rejected {
                    result: AssociationResult::RejectedPermanent,
                    diagnostic: Diagnostic::User(UserDiagnostic::AuthenticationFailure),
                },
            );
        }
        let returned = match response.return_parameters {
            Some(GetDataResult::Data(d)) => d.as_bytes(),
            _ => None,
        };
        let shown = match returned {
            Some(b) => b,
            None => {
                return Err(Error::new(ErrorKind::UnexpectedMessage, 0));
            },
        };
        let peer = match self.server_system_title {
            Some(t) => t,
            None => {
                return Err(Error::new(ErrorKind::UnexpectedMessage, 0));
            },
        };
        let auth_key = self.auth_key()?;
        self.protector.verify_hls_gmac(&peer, auth_key, self.client_challenge.as_slice(), shown)?;
        self.state = SessionState::Associated;
        Ok(AssociationStep::Established)
    }

    /// Hold a decoded APDU against what is outstanding.
    fn answer<'b>(&mut self, decoded: Apdu<'b>) -> (r: Result<Response<'b>>)
        ensures
            final(self)@ == old(self)@.responds(decoded@).1,
            match r {
                Ok(x) => old(self)@.responds(decoded@).0 == Ok::<ResponseV, Error>(x@),
                Err(e) => old(self)@.responds(decoded@).0 == Err::<ResponseV, Error>(e),
            },
    {
        // An answer must be to the question that was asked. On a shared link — an
        // RS-485 bus, a concentrator multiplexing several meters — a response with
        // somebody else's invoke id is a reading attributed to the wrong request, and
        // nothing downstream can tell.
        if let Some(outstanding) = self.outstanding {
            if let Some(got) = response_invoke_id(&decoded) {
                if got.id() != outstanding.id() {
                    return Err(Error::new(ErrorKind::UnexpectedMessage, 0));
                }
            }
        }
        match response(decoded) {
            Some(Response::Released) => {
                self.state = SessionState::Closed;
                Ok(Response::Released)
            },
            Some(answer) => Ok(answer),
            None => Err(Error::new(ErrorKind::UnexpectedMessage, 0)),
        }
    }

    /// Consume a response APDU.
    ///
    /// `buf` receives the unprotected APDU, and the returned [`Response`] borrows from
    /// it. That is why it is a parameter: the caller decides where a decrypted APDU
    /// lives, and it lives no longer than the caller lets it.
    ///
    /// # Errors
    /// When the APDU is malformed, protected more weakly than the policy demands, or
    /// not a response at all.
    pub fn handle_response<'b>(&mut self, apdu: &[u8], buf: &'b mut [u8]) -> (r: Result<
        Response<'b>,
    >)
        ensures
            final(self)@ == old(self)@.handles(apdu@, old(buf)@.len()).1,
            match r {
                Ok(x) => old(self)@.handles(apdu@, old(buf)@.len()).0 == Ok::<ResponseV, Error>(x@),
                Err(e) => old(self)@.handles(apdu@, old(buf)@.len()).0 == Err::<ResponseV, Error>(
                    e,
                ),
            },
            final(buf)@ == (match old(self)@.opens(apdu@, old(buf)@.len()).0 {
                Ok(plain) => plain + old(buf)@.skip(plain.len() as int),
                Err(_) => old(buf)@,
            }),
    {
        let plain = self.unprotect(apdu, buf.len())?;
        copy_into(buf, plain.as_slice());
        let done: &[u8] = &*buf;
        let bytes: &[u8] = vstd::slice::slice_subrange(done, 0, plain.len());
        assert(bytes@ =~= plain@);
        assert(Apdu::parse(Cursor::start(bytes@)) == ApduV::p(Cursor::start(bytes@)));
        let decoded = Apdu::from_bytes(bytes)?;
        self.answer(decoded)
    }

    /// Build the request that releases the association.
    ///
    /// # Errors
    /// When the buffer is too small.
    pub fn release_request(&mut self, out: &mut [u8]) -> (r: Result<usize>)
        ensures
            ({
                let rlrq = Rlrq { reason: Some(ReleaseReason::Normal), user_information: None };
                if rlrq.encodable() && rlrq.enc().len() <= old(out)@.len() {
                    &&& r == Ok::<usize, Error>(rlrq.enc().len() as usize)
                    &&& final(out)@ == rlrq.enc() + old(out)@.skip(rlrq.enc().len() as int)
                    &&& final(self)@ == (SessionV { state: SessionState::Releasing, ..old(self)@ })
                } else {
                    &&& r matches Err(e) && not_built(
                        e,
                        rlrq.enc(),
                        rlrq.encodable(),
                        old(out)@.len(),
                    )
                    &&& final(out)@ == old(out)@
                    &&& final(self)@ == old(self)@
                }
            }),
    {
        let rlrq = Rlrq { reason: Some(ReleaseReason::Normal), user_information: None };
        let mut w = BoundedWriter::new(out.len());
        rlrq.encode(&mut w)?;
        let bytes = w.finish();
        assert(bytes@ =~= rlrq.enc());
        copy_into(out, bytes.as_slice());
        self.state = SessionState::Releasing;
        Ok(bytes.len())
    }
}

} // verus!
