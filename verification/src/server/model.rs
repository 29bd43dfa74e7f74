//! What a server is and what its replies are, apart from the objects it hosts.

use vstd::prelude::*;

use super::ServerConfig;
use super::ServerState;
use crate::codec::{Error, ErrorKind, Result};
use crate::security::protect::SecurityPolicy;
use crate::security::CryptoProvider;
use crate::xdlms::ids::InvokeId;
use crate::xdlms::initiate::Conformance;
use crate::xdlms::result::{
    ActionResult, DataAccessResult, ExceptionResponse, ServiceError, StateError,
};
use crate::xdlms::tag::ApduTag;
#[allow(unused_imports)]
use crate::codec::{not_built, too_many};
#[allow(unused_imports)]
use crate::security::counter::WindowV;
#[allow(unused_imports)]
use crate::security::rustcrypto::unsupported;
#[allow(unused_imports)]
use crate::security::wrap::{title_view, unexpected, wrapped_by, IncomingV, OutgoingV};
#[allow(unused_imports)]
use crate::xdlms::apdu::ApduV;
#[allow(unused_imports)]
use crate::xdlms::service::{
    ActionResponseV, ActionResponseWithOptionalDataV, AttributeDescriptorV, BlockResultV,
    DataBlockGV, DataBlockSAV, GetDataResultV, GetResponseV, MethodDescriptorV, ReadResponseV,
    ReadResultV, SetResponseV,
};

verus! {

/// The APDUs a server accepts from a client with no protection on them, even in a
/// ciphered association: the two that precede or end the association, whose protection
/// lives in their user-information field rather than around the APDU.
pub open spec fn plain_from_client() -> Seq<ApduTag> {
    seq![ApduTag::Aarq, ApduTag::ReleaseRequest]
}

/// What the AARQ's user information may be when the association is not ciphered.
pub open spec fn plain_request() -> Seq<ApduTag> {
    seq![ApduTag::InitiateRequest]
}

/// Which service a run of blocks answers.
///
/// GET and ACTION segment their results differently — `get-response-with-datablock`
/// carries a `DataBlock-G` whose payload is a choice, `action-response-with-pblock`
/// carries a bare `DataBlock-SA` — so the block form cannot be inferred from the bytes.
#[derive(Debug, Clone, Copy, PartialEq, Eq, Structural)]
pub enum Outbound {
    /// `get-response-with-datablock`.
    Get,
    /// `action-response-with-pblock`.
    Action,
    /// A short-name `read-response` whose single result is a `data-block-result`.
    Read,
}

/// What a write that arrives block by block is for.
#[verifier::ext_equal]
pub enum SetTargetV {
    /// One attribute, with its encoded selector; nothing where there is none.
    One(AttributeDescriptorV, Seq<u8>),
    /// Several attributes: their encoded list.
    Many(Seq<u8>),
}

impl SetTargetV {
    /// What has to survive from the first block to the last.
    pub open spec fn header(self) -> Seq<u8> {
        match self {
            SetTargetV::One(_, access) => access,
            SetTargetV::Many(list) => list,
        }
    }
}

/// A transfer in flight: bytes going out block by block, or a value arriving that way.
#[verifier::ext_equal]
#[allow(inconsistent_fields)]
pub enum TransferV {
    /// Nothing in flight.
    Idle,
    /// A response too large for one APDU.
    Sending {
        /// The invoke id every block of this transfer carries.
        invoke_id: InvokeId,
        /// Which service is being answered.
        service: Outbound,
        /// The whole of it.
        bytes: Seq<u8>,
        /// How many have gone out.
        sent: nat,
        /// The number of the last block sent. Blocks count from one.
        block: u32,
    },
    /// A SET whose value is arriving block by block.
    ReceivingSet {
        /// The invoke id every block carries.
        invoke_id: InvokeId,
        /// What is being written.
        target: SetTargetV,
        /// What of the value has arrived.
        value: Seq<u8>,
        /// The number of the last block accepted.
        block: u32,
    },
    /// An ACTION whose parameter is arriving block by block.
    ReceivingAction {
        /// The invoke id every block carries.
        invoke_id: InvokeId,
        /// Which method is being invoked.
        descriptor: MethodDescriptorV,
        /// What of the parameter has arrived.
        value: Seq<u8>,
        /// The number of the last block accepted.
        block: u32,
    },
}

/// What a server is, apart from its objects and the size of its buffers.
#[verifier::ext_equal]
#[verifier::reject_recursive_types(P)]
pub struct ServerV<P> {
    /// What it offers and demands.
    pub config: ServerConfig,
    /// Its cryptography.
    pub crypto: P,
    /// The protection in force for service APDUs.
    pub policy: SecurityPolicy,
    /// Where the association is.
    pub state: ServerState,
    /// The client's title.
    pub client_title: Option<Seq<u8>>,
    /// The challenge that the server has to answer.
    pub client_challenge: Seq<u8>,
    /// The challenge that the client has to answer.
    pub server_challenge: Seq<u8>,
    /// The last counter that it sent under.
    pub counter: u32,
    /// Which of the peer's counters are spent.
    pub window: WindowV,
    /// Whose counters those are.
    pub owner: Option<Seq<u8>>,
    /// What both sides agreed to.
    pub negotiated: Conformance,
    /// Whether the association is ciphered.
    pub ciphered: bool,
    /// The largest APDU the client receives.
    pub client_max: u16,
    /// The transfer in flight.
    pub transfer: TransferV,
}

/// An exchange: how many bytes a reply can be built in, the buffer it goes into before and
/// after, the server afterwards, and what is returned.
#[verifier::reject_recursive_types(P)]
pub struct ExchangeV<P> {
    /// How many bytes a reply can be built in.
    pub n: nat,
    /// The buffer before.
    pub before: Seq<u8>,
    /// The buffer after.
    pub after: Seq<u8>,
    /// The server after.
    pub next: ServerV<P>,
    /// What is returned.
    pub r: Result<usize>,
}

impl<P: CryptoProvider> ExchangeV<P> {
    /// An exchange in which the buffer comes to hold so many bytes and their number is
    /// returned.
    pub open spec fn holds(self, w: Seq<u8>) -> bool {
        &&& w.len() <= self.before.len()
        &&& self.after == w + self.before.skip(w.len() as int)
        &&& self.r == Ok::<usize, Error>(w.len() as usize)
    }

    /// An exchange in which nothing is written and an error is returned.
    pub open spec fn fails(self, e: Error) -> bool {
        self.after == self.before && self.r == Err::<usize, Error>(e)
    }

    /// An exchange in which bytes could not be built in so much room, or at all.
    pub open spec fn unbuilt(self, bytes: Seq<u8>, fits: bool, room: nat) -> bool {
        &&& self.after == self.before
        &&& self.r matches Err(e) && not_built(e, bytes, fits, room)
    }
}

/// A refusal of an APDU as such.
pub open spec fn exception_v(state_error: StateError, service_error: ServiceError) -> ApduV {
    ApduV::ExceptionResponse(
        ExceptionResponse { state_error, service_error, expected_invocation_counter: None },
    )
}

/// A refusal that names the counter that is expected next.
pub open spec fn counter_exception_v(expected: u32) -> ApduV {
    ApduV::ExceptionResponse(
        ExceptionResponse {
            state_error: StateError::ServiceNotAllowed,
            service_error: ServiceError::InvocationCounterError,
            expected_invocation_counter: Some(expected),
        },
    )
}

/// A read that is refused.
pub open spec fn get_error_v(invoke_id: InvokeId, e: DataAccessResult) -> ApduV {
    ApduV::GetResponse(GetResponseV::Normal { invoke_id, result: GetDataResultV::Error(e) })
}

/// An invocation that is answered with no value.
pub open spec fn action_v(invoke_id: InvokeId, result: ActionResult) -> ApduV {
    ApduV::ActionResponse(
        ActionResponseV::Normal {
            invoke_id,
            response: ActionResponseWithOptionalDataV { result, return_parameters: None },
        },
    )
}

/// A write that is answered in one APDU.
pub open spec fn set_v(invoke_id: InvokeId, result: DataAccessResult) -> ApduV {
    ApduV::SetResponse(SetResponseV::Normal { invoke_id, result })
}

/// A short-name read that produced nothing at all: one entry, one error.
pub open spec fn read_error_v(e: DataAccessResult) -> ApduV {
    ApduV::ReadResponse(ReadResponseV { results: seq![ReadResultV::Error(e)] })
}

/// The counter that a window expects next.
pub open spec fn expected_next(w: WindowV) -> u32 {
    match w.highest {
        None => 0,
        Some(h) => if h == u32::MAX {
            h
        } else {
            (h + 1) as u32
        },
    }
}

impl<P: CryptoProvider> ServerV<P> {
    /// A server that has not done anything yet.
    pub open spec fn start(config: ServerConfig, crypto: P) -> ServerV<P> {
        ServerV {
            config,
            crypto,
            policy: config.security.global(),
            state: ServerState::Idle,
            client_title: None,
            client_challenge: Seq::empty(),
            server_challenge: Seq::empty(),
            counter: config.invocation_counter,
            window: crate::client::session::fresh_window(config.replay_window),
            owner: None,
            negotiated: Conformance::empty(),
            ciphered: false,
            client_max: config.max_pdu_size,
            transfer: TransferV::Idle,
        }
    }

    /// The server with everything forgotten that belongs to one association. The counter
    /// stays, and so does the peer's window. The cryptography has been told to forget the
    /// association's key.
    pub open spec fn cleared(self, crypto: P) -> ServerV<P> {
        ServerV {
            crypto,
            policy: self.policy.with_dedicated(false),
            client_title: None,
            client_challenge: Seq::empty(),
            server_challenge: Seq::empty(),
            negotiated: Conformance::empty(),
            ciphered: false,
            client_max: self.config.max_pdu_size,
            transfer: TransferV::Idle,
            ..self
        }
    }

    /// The server with nothing in flight: a new request abandons whatever was
    /// half-delivered.
    pub open spec fn idle(self) -> ServerV<P> {
        ServerV { transfer: TransferV::Idle, ..self }
    }

    /// Whether something was agreed to.
    pub open spec fn agreed(self, c: Conformance) -> bool {
        self.negotiated.contains(c)
    }

    /// What protection adds to an APDU at most.
    pub open spec fn overhead(self) -> int {
        if self.config.security.is_none() {
            0
        } else {
            23
        }
    }

    /// The largest fragment of a response that a block can carry.
    pub open spec fn fragment(self, n: nat) -> nat {
        let room = self.client_max - 14 - self.overhead();
        if room < 0 {
            0
        } else if room > n {
            n
        } else {
            room as nat
        }
    }

    /// What goes out with a message under the next counter.
    pub open spec fn outgoing(self) -> OutgoingV {
        OutgoingV {
            system_title: self.config.system_title->0@,
            invocation_counter: (self.counter + 1) as u32,
            auth_key: self.crypto.auth_bytes(),
            policy: self.policy,
            general_allowed: self.agreed(Conformance::GENERAL_PROTECTION()),
        }
    }

    /// What is known of a message that comes in.
    pub open spec fn incoming(self, policy: SecurityPolicy, allowed: Seq<ApduTag>) -> IncomingV {
        IncomingV {
            local: title_view(self.config.system_title),
            peer: self.client_title,
            auth_key: self.crypto.auth_bytes(),
            policy,
            plain_allowed: allowed,
        }
    }

    /// The refusal of a reply that the client has said it cannot receive.
    pub open spec fn too_long(self, len: nat) -> Error {
        Error {
            kind: ErrorKind::BufferTooSmall { needed: (len - self.client_max) as usize },
            offset: 0,
        }
    }

    /// What sending a plain reply comes to. It has to fit what it is built in, the buffer
    /// and what the client receives; and a protected one spends a counter whether it could
    /// be built or not.
    pub open spec fn sends_plain(self, plain: Seq<u8>, x: ExchangeV<P>) -> bool {
        if plain.len() > x.n {
            x.next == self && x.unbuilt(plain, true, x.n)
        } else if self.config.security.is_none() {
            &&& x.next == self
            &&& if plain.len() > self.client_max {
                x.fails(self.too_long(plain.len()))
            } else if plain.len() > x.before.len() {
                x.fails(too_many(plain.len(), x.before.len()))
            } else {
                x.holds(plain)
            }
        } else if self.config.system_title is None {
            x.next == self && x.fails(unexpected())
        } else if self.counter == u32::MAX {
            x.next == self && x.fails(unsupported())
        } else {
            &&& x.next == ServerV { counter: (self.counter + 1) as u32, ..self }
            &&& match wrapped_by(&self.crypto, self.outgoing(), plain, x.before.len()) {
                Err(e) => x.fails(e),
                Ok(w) => if w.len() > self.client_max {
                    &&& x.r == Err::<usize, Error>(self.too_long(w.len()))
                    &&& x.after == w + x.before.skip(w.len() as int)
                } else {
                    x.holds(w)
                },
            }
        }
    }

    /// What sending a reply comes to.
    pub open spec fn sends(self, apdu: ApduV, x: ExchangeV<P>) -> bool {
        if !apdu.fits() {
            x.next == self && x.unbuilt(apdu.enc(), false, x.n)
        } else {
            self.sends_plain(apdu.enc(), x)
        }
    }

    /// What writing a reply as it is comes to.
    pub open spec fn writes(self, apdu: Seq<u8>, fits: bool, x: ExchangeV<P>) -> bool {
        &&& x.next == self
        &&& if fits && apdu.len() <= x.before.len() {
            x.holds(apdu)
        } else {
            x.unbuilt(apdu, fits, x.before.len())
        }
    }

    /// What refusing an APDU as such comes to: the refusal is protected where the
    /// association can.
    pub open spec fn excepts(
        self,
        state_error: StateError,
        service_error: ServiceError,
        x: ExchangeV<P>,
    ) -> bool {
        let apdu = exception_v(state_error, service_error);
        if self.config.security.is_none() || !self.agreed(Conformance::GENERAL_PROTECTION()) {
            self.writes(apdu.enc(), apdu.fits(), x)
        } else {
            self.sends(apdu, x)
        }
    }

    /// What a request comes to that is not allowed where the association is.
    pub open spec fn not_possible(self, x: ExchangeV<P>) -> bool {
        self.excepts(StateError::ServiceNotAllowed, ServiceError::OperationNotPossible, x)
    }

    /// What a request comes to that was not agreed to.
    pub open spec fn not_supported(self, x: ExchangeV<P>) -> bool {
        self.excepts(StateError::ServiceUnknown, ServiceError::ServiceNotSupported, x)
    }

    /// The transfer once its next block has gone out.
    pub open spec fn block_sent(self, n: nat) -> TransferV {
        match self.transfer {
            TransferV::Sending { invoke_id, service, bytes, sent, block } => if self.block_end(n)
                == bytes.len() {
                TransferV::Idle
            } else {
                TransferV::Sending {
                    invoke_id,
                    service,
                    bytes,
                    sent: self.block_end(n),
                    block: next_number(block),
                }
            },
            t => t,
        }
    }

    /// Where the next block of what is being sent ends.
    pub open spec fn block_end(self, n: nat) -> nat {
        match self.transfer {
            TransferV::Sending { bytes, sent, .. } => if sent + self.fragment(n) < bytes.len() {
                sent + self.fragment(n)
            } else {
                bytes.len()
            },
            _ => 0,
        }
    }

    /// The reply that carries the next block.
    pub open spec fn block_v(self, n: nat) -> ApduV {
        match self.transfer {
            TransferV::Sending { invoke_id, service, bytes, sent, block } => {
                block_apdu_v(
                    invoke_id,
                    service,
                    self.block_end(n) == bytes.len(),
                    next_number(block),
                    bytes.subrange(sent as int, self.block_end(n) as int),
                )
            },
            _ => arbitrary(),
        }
    }

    /// What sending the next block of a long response comes to.
    pub open spec fn sends_block(self, x: ExchangeV<P>) -> bool {
        match self.transfer {
            TransferV::Sending { invoke_id, service, bytes, sent, block } => {
                if self.fragment(x.n) == 0 {
                    self.idle().sends(
                        match service {
                            Outbound::Get => get_error_v(
                                invoke_id,
                                DataAccessResult::LongGetAborted,
                            ),
                            Outbound::Action => action_v(
                                invoke_id,
                                ActionResult::LongActionAborted,
                            ),
                            Outbound::Read => read_error_v(DataAccessResult::LongGetAborted),
                        },
                        x,
                    )
                } else if service is Read && next_number(block) > 0xFFFF {
                    x.next == self && x.fails(
                        Error { kind: ErrorKind::InvalidLength, offset: 0 },
                    )
                } else {
                    &&& self.sends(
                        self.block_v(x.n),
                        ExchangeV { next: ServerV { transfer: self.transfer, ..x.next }, ..x },
                    )
                    &&& x.next.transfer == (if x.r is Ok {
                        self.block_sent(x.n)
                    } else {
                        self.transfer
                    })
                }
            },
            _ => self.not_possible(x),
        }
    }

    /// What beginning to send a long response block by block comes to.
    pub open spec fn begins_blocks(
        self,
        invoke_id: InvokeId,
        service: Outbound,
        bytes: Seq<u8>,
        x: ExchangeV<P>,
    ) -> bool {
        ServerV {
            transfer: TransferV::Sending { invoke_id, service, bytes, sent: 0, block: 0 },
            ..self
        }.sends_block(x)
    }
}

/// The reply that carries one block.
pub open spec fn block_apdu_v(
    invoke_id: InvokeId,
    service: Outbound,
    last_block: bool,
    block_number: u32,
    raw_data: Seq<u8>,
) -> ApduV {
    match service {
        Outbound::Get => ApduV::GetResponse(
            GetResponseV::WithDataBlock {
                invoke_id,
                block: DataBlockGV {
                    last_block,
                    block_number,
                    result: BlockResultV::RawData(raw_data),
                },
            },
        ),
        Outbound::Action => ApduV::ActionResponse(
            ActionResponseV::WithPblock {
                invoke_id,
                block: DataBlockSAV { last_block, block_number, raw_data },
            },
        ),
        Outbound::Read => ApduV::ReadResponse(
            ReadResponseV {
                results: seq![
                    ReadResultV::Block {
                        last_block,
                        block_number: block_number as u16,
                        raw_data,
                    },
                ],
            },
        ),
    }
}

/// The number of the block after one.
pub open spec fn next_number(block: u32) -> u32 {
    if block == u32::MAX {
        block
    } else {
        (block + 1) as u32
    }
}

} // verus!
