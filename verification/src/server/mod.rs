//! The server: a sans-I/O meter.
//!
//! The same engine runs inside firmware and behind a simulator. Objects are behind
//! the [`ObjectStore`] trait, so a meter backs an attribute with a flash cell and a
//! simulator backs it with whatever it likes; associations, authentication, access
//! control and protection are in the framework, not in each object.

use vstd::prelude::*;

pub mod access;
pub mod admitted;
pub mod asked;
pub mod association;
pub mod dispatch;
pub mod invoke;
pub mod laws;
pub mod model;
pub mod push;
pub mod read;
pub mod served;
pub mod short;
pub mod store;
pub mod write;

pub use invoke::method_answer;
pub use push::{check_body_fits, PushDestination, PushSender};
pub use read::read_answer;
pub use store::{AuditEvent, ObjectStore, StoreResult};
pub use write::write_answer;

use crate::acse::{AuthMechanism, Referencing};
use crate::bytes::copy_into;
use crate::codec::{BoundedWriter, Encode, Error, ErrorKind, Result};
use crate::security::counter::{InvocationCounter, ReplayWindow};
use crate::security::keys::{Secret, SystemTitle};
use crate::security::protect::{Protector, SecurityPolicy};
use crate::security::wrap::{protect_apdu, unprotect_apdu, Incoming, Outgoing};
use crate::security::{forget_key, CryptoProvider};
use crate::xdlms::apdu::Apdu;
use crate::xdlms::ids::InvokeId;
use crate::xdlms::initiate::Conformance;
use crate::xdlms::result::{
    ActionResult, DataAccessResult, ExceptionResponse, ServiceError, StateError,
};
use crate::xdlms::service::{
    ActionResponse, ActionResponseWithOptionalData, AttributeDescriptor, BlockResult, DataBlockG,
    DataBlockSA, GetDataResult, GetResponse, MethodDescriptor, ReadResponse, ReadResult,
    SetResponse,
};
use crate::xdlms::tag::ApduTag;
use model::Outbound;
#[allow(unused_imports)]
use crate::security::forgets;
#[allow(unused_imports)]
use crate::security::rustcrypto::unsupported;
#[allow(unused_imports)]
use crate::security::wrap::{title_view, unwrapped_by};
#[allow(unused_imports)]
use crate::xdlms::list::views;
#[allow(unused_imports)]
use crate::xdlms::service::ReadResultV;
use store::tell;
#[allow(unused_imports)]
use store::noted;
#[allow(unused_imports)]
use model::{
    action_v, block_apdu_v, counter_exception_v, get_error_v, plain_from_client, plain_request,
    read_error_v, set_v, ExchangeV, ServerV, SetTargetV, TransferV,
};

verus! {

/// What the server is.
#[derive(Clone)]
pub struct ServerConfig {
    /// The server's system title. Required for a ciphered association and for GMAC.
    pub system_title: Option<SystemTitle>,
    /// Which authentication the server requires.
    pub mechanism: AuthMechanism,
    /// The low-level-security password, or the high-level-security shared secret.
    pub password: Option<Secret>,
    /// What protection the server applies and demands.
    pub security: SecurityPolicy,
    /// How this server addresses objects.
    ///
    /// Decided by the application context the client proposes, and a client that
    /// proposes the other one is refused — a meter serves one or the other, and
    /// answering short names to a logical-name association would be answering a
    /// different question.
    pub referencing: Referencing,
    /// The largest APDU the server will accept.
    pub max_pdu_size: u16,
    /// What the server can do.
    pub conformance: Conformance,
    /// How long a challenge to send.
    pub challenge_len: usize,
    /// The last invocation counter this server used before it started.
    ///
    /// Zero is right only for a device that has never sent under these keys. A server
    /// that restarts from zero against an unchanged key reuses every nonce it used
    /// before, and repeating a GCM nonce leaks the authentication subkey — after which
    /// anyone can forge messages under that key. Persist
    /// [`Server::invocation_counter`] and restore it here.
    pub invocation_counter: u32,
    /// How far out of order a client's invocation counters may arrive.
    ///
    /// Zero — strictly increasing — is right for HDLC and TCP. See [`ReplayWindow`].
    pub replay_window: u32,
}

impl Default for ServerConfig {
    fn default() -> (r: Self)
        ensures
            r == (ServerConfig {
                system_title: None,
                mechanism: AuthMechanism::Lowest,
                password: None,
                security: SecurityPolicy::NONE(),
                referencing: Referencing::LogicalName,
                max_pdu_size: 1024,
                conformance: Conformance::SERVER_DEFAULT(),
                challenge_len: 16,
                invocation_counter: 0,
                replay_window: 0,
            }),
    {
        ServerConfig {
            system_title: None,
            mechanism: AuthMechanism::Lowest,
            password: None,
            security: SecurityPolicy::NONE(),
            referencing: Referencing::LogicalName,
            max_pdu_size: 1024,
            conformance: Conformance::SERVER_DEFAULT(),
            challenge_len: 16,
            invocation_counter: 0,
            replay_window: 0,
        }
    }
}

/// Where the association is.
#[derive(Debug, Clone, Copy, PartialEq, Eq, Structural)]
pub enum ServerState {
    /// No association.
    Idle,
    /// The AARE has gone out and the client's reply to the challenge is outstanding.
    AwaitingHlsReply,
    /// Serving requests.
    Associated,
    /// Released.
    Closed,
}

/// A response and how much of it has gone out.
struct Remainder {
    bytes: Vec<u8>,
    sent: usize,
}

impl Remainder {
    #[verifier::type_invariant]
    spec fn inv(self) -> bool {
        self.sent <= self.bytes@.len()
    }
}

/// What a write that arrives block by block is for.
enum SetTarget {
    /// One attribute, with its encoded selector; nothing where there is none.
    One(AttributeDescriptor, Vec<u8>),
    /// Several attributes: their encoded list.
    Many(Vec<u8>),
}

impl View for SetTarget {
    type V = SetTargetV;

    closed spec fn view(&self) -> SetTargetV {
        match *self {
            SetTarget::One(descriptor, access) => SetTargetV::One(descriptor@, access@),
            SetTarget::Many(list) => SetTargetV::Many(list@),
        }
    }
}

/// A transfer in flight: bytes going out block by block, or a value arriving that way.
///
/// Only one can be in flight at a time — the standard's block transfer is a single
/// outstanding invocation per association — so this is one state rather than four
/// optional fields that could disagree with each other.
enum Transfer {
    /// Nothing in flight.
    Idle,
    /// A response too large for one APDU, waiting for the client to ask for the rest.
    Sending { invoke_id: InvokeId, service: Outbound, rest: Remainder, block: u32 },
    /// A SET whose value is arriving block by block.
    ReceivingSet { invoke_id: InvokeId, target: SetTarget, value: Vec<u8>, block: u32 },
    /// An ACTION whose parameter is arriving block by block.
    ReceivingAction {
        invoke_id: InvokeId,
        descriptor: MethodDescriptor,
        value: Vec<u8>,
        block: u32,
    },
}

impl View for Transfer {
    type V = TransferV;

    closed spec fn view(&self) -> TransferV {
        match *self {
            Transfer::Idle => TransferV::Idle,
            Transfer::Sending { invoke_id, service, rest, block } => TransferV::Sending {
                invoke_id,
                service,
                bytes: rest.bytes@,
                sent: rest.sent as nat,
                block,
            },
            Transfer::ReceivingSet { invoke_id, target, value, block } => TransferV::ReceivingSet {
                invoke_id,
                target: target@,
                value: value@,
                block,
            },
            Transfer::ReceivingAction { invoke_id, descriptor, value, block } =>
            TransferV::ReceivingAction { invoke_id, descriptor: descriptor@, value: value@, block },
        }
    }
}

/// The reply that carries one block.
fn block_apdu<'a>(
    invoke_id: InvokeId,
    service: Outbound,
    last_block: bool,
    number: u32,
    payload: &'a [u8],
) -> (apdu: Apdu<'a>)
    ensures
        apdu@ == block_apdu_v(invoke_id, service, last_block, number, payload@),
{
    match service {
        Outbound::Read => {
            // A blocked short-name read answers with a list of exactly one result, and
            // that result is a `data-block-result`.
            let mut results: Vec<ReadResult<'a>> = Vec::new();
            results.push(
                ReadResult::Block { last_block, block_number: number as u16, raw_data: payload },
            );
            assert(views(results@) =~= seq![
                ReadResultV::Block {
                    last_block,
                    block_number: number as u16,
                    raw_data: payload@,
                },
            ]);
            Apdu::ReadResponse(ReadResponse { results })
        },
        Outbound::Get => Apdu::GetResponse(
            GetResponse::WithDataBlock {
                invoke_id,
                block: DataBlockG {
                    last_block,
                    block_number: number,
                    result: BlockResult::RawData(payload),
                },
            },
        ),
        Outbound::Action => Apdu::ActionResponse(
            ActionResponse::WithPblock {
                invoke_id,
                block: DataBlockSA { last_block, block_number: number, raw_data: payload },
            },
        ),
    }
}

/// A DLMS server over one link, serving one logical device.
///
/// A meter hosting several logical devices runs **one `Server` per device**; the caller
/// routes by the service access point its transport hands it — the wrapper header's
/// destination, or the HDLC destination address. This type never sees a transport, so
/// the SAP is not its to dispatch on.
///
/// `N` sizes the working buffers and bounds **the largest attribute the store can
/// produce** — not the largest APDU it can send:
///
/// * `max_pdu_size` and the client's own limit bound one *message*. A value larger than
///   that is delivered over block transfer, however many blocks it takes.
/// * `N` bounds the *value*, because a response is built whole before it is cut into
///   blocks. A meter whose load profile encodes to eight kilobytes needs `N` of at
///   least that, whatever PDU size it negotiates.
///
/// A store that overruns `N` gets a write error from its `Writer` and reports whatever
/// [`DataAccessResult`] it chooses; nothing is truncated silently.
pub struct Server<S, P, const N: usize> {
    config: ServerConfig,
    store: S,
    protector: Protector<P>,
    state: ServerState,
    client_system_title: Option<SystemTitle>,
    client_challenge: Vec<u8>,
    server_challenge: Vec<u8>,
    invocation_counter: InvocationCounter,
    /// Which of the client's invocation counters have already been spent.
    peer_replay: ReplayWindow,
    /// Whose counters `peer_replay` describes.
    ///
    /// The window outlives the association, and this is what makes that safe. A client
    /// that reconnects keeps its own counter across the gap, so throwing the window away
    /// with the association would let everything recorded from the previous connection
    /// be replayed into the next one — and an AARQ is unauthenticated, so an on-path
    /// attacker can cause that gap at will. A window is therefore started fresh only
    /// when the calling system title changes, which is the one case where the counters
    /// genuinely belong to a different sender.
    replay_owner: Option<SystemTitle>,
    negotiated: Conformance,
    ciphered_association: bool,
    /// The largest APDU the client said it can receive, once it has said so.
    client_max_pdu_size: u16,
    /// The block transfer in flight, if any.
    transfer: Transfer,
}

impl<S: ObjectStore, P: CryptoProvider, const N: usize> View for Server<S, P, N> {
    type V = ServerV<P>;

    closed spec fn view(&self) -> ServerV<P> {
        ServerV {
            config: self.config,
            crypto: self.protector.crypto(),
            policy: self.protector.in_force(),
            state: self.state,
            client_title: title_view(self.client_system_title),
            client_challenge: self.client_challenge@,
            server_challenge: self.server_challenge@,
            counter: self.invocation_counter@,
            window: self.peer_replay@,
            owner: title_view(self.replay_owner),
            negotiated: self.negotiated,
            ciphered: self.ciphered_association,
            client_max: self.client_max_pdu_size,
            transfer: self.transfer@,
        }
    }
}

impl<S: ObjectStore, P: CryptoProvider, const N: usize> Server<S, P, N> {
    /// The objects.
    pub closed spec fn objects(&self) -> S {
        self.store
    }

    /// A server over `store`, using `provider` for cryptography.
    pub fn new(config: ServerConfig, store: S, provider: P) -> (s: Self)
        ensures
            s@ == ServerV::start(config, provider),
            s.objects() == store,
    {
        // Before the association is open there is no dedicated key, so the protector
        // starts on the global key set. A client that delivers one in its
        // InitiateRequest switches it over for the rest of the association.
        let policy = config.security.global();
        let invocation_counter = InvocationCounter::new(config.invocation_counter);
        let peer_replay = ReplayWindow::new(config.replay_window);
        let client_max_pdu_size = config.max_pdu_size;
        Server {
            config,
            store,
            protector: Protector::new(provider, policy),
            state: ServerState::Idle,
            client_system_title: None,
            client_challenge: Vec::new(),
            server_challenge: Vec::new(),
            invocation_counter,
            peer_replay,
            replay_owner: None,
            negotiated: Conformance::empty(),
            ciphered_association: false,
            client_max_pdu_size,
            transfer: Transfer::Idle,
        }
    }

    /// The last invocation counter this server sent under.
    ///
    /// Persist this. Restoring a lower value after a restart reuses a nonce; see
    /// [`ServerConfig::invocation_counter`].
    #[must_use]
    pub fn invocation_counter(&self) -> (r: u32)
        ensures
            r == self@.counter,
    {
        self.invocation_counter.get()
    }

    /// The highest invocation counter accepted from the client, if any.
    #[must_use]
    pub fn peer_invocation_counter(&self) -> (r: Option<u32>)
        ensures
            r == self@.window.highest,
    {
        self.peer_replay.highest()
    }

    /// The largest APDU the client said it can receive.
    #[must_use]
    pub fn client_max_pdu_size(&self) -> (r: u16)
        ensures
            r == self@.client_max,
    {
        self.client_max_pdu_size
    }

    /// Forget the association, ready for a new client on the same link.
    ///
    /// A `Server` holds one association at a time. Releasing clears it, but a client
    /// that simply drops the connection never sends an RLRQ — and a sans-I/O engine
    /// cannot see a closed socket, so nothing else can notice. A caller that reuses a
    /// `Server` across connections must call this, or the next client inherits the
    /// previous one's dedicated key, negotiated conformance and challenge.
    ///
    /// Two things are deliberately **not** reset. The invocation counter must never go
    /// backwards, because a repeated GCM nonce is a key-recovery event and the key has
    /// not changed. And the peer's replay window survives too: a client that reconnects
    /// carries its own counter across the gap, so discarding the window here would make
    /// every frame recorded from the previous connection replayable into the next one.
    /// It is started fresh when a *different* system title associates
    /// ([`Server::replay_owner`]).
    pub fn reset(&mut self)
        ensures
            final(self)@ == (ServerV {
                state: ServerState::Idle,
                ..old(self)@.cleared(final(self)@.crypto)
            }),
            forgets(old(self)@.crypto, final(self)@.crypto),
            noted(old(self).objects(), AuditEvent::Released, final(self).objects()),
    {
        self.state = ServerState::Idle;
        self.clear_association();
        tell(&mut self.store, AuditEvent::Released);
    }

    /// Forget everything scoped to one association, keeping what outlives it.
    ///
    /// Called by [`Server::reset`] and by the arrival of a new AARQ, which is the other
    /// way one association replaces another: a client may re-associate on an open link
    /// without releasing first, and the second association must not inherit the first
    /// one's dedicated key, challenge, negotiated conformance or half-finished transfer.
    fn clear_association(&mut self)
        ensures
            final(self)@ == old(self)@.cleared(final(self)@.crypto),
            forgets(old(self)@.crypto, final(self)@.crypto),
            final(self).objects() == old(self).objects(),
    {
        self.client_system_title = None;
        self.client_challenge = Vec::new();
        self.server_challenge = Vec::new();
        self.negotiated = Conformance::empty();
        self.ciphered_association = false;
        self.client_max_pdu_size = self.config.max_pdu_size;
        forget_key(self.protector.provider_mut());
        self.protector.set_dedicated(false);
        self.transfer = Transfer::Idle;
    }

    /// Whose invocation counters the replay window currently describes.
    ///
    /// Persist it alongside [`ReplayWindow::highest`] if the window is to survive a
    /// restart; restore with [`Server::resume_replay_window`].
    #[must_use]
    pub fn replay_owner(&self) -> (r: Option<SystemTitle>)
        ensures
            title_view(r) == self@.owner,
    {
        self.replay_owner
    }

    /// Restore a peer's replay window from storage.
    ///
    /// Without this a server that restarts accepts every frame it has ever seen from
    /// that peer a second time — the counter is the only thing that distinguishes a
    /// recording from the real message.
    pub fn resume_replay_window(&mut self, peer: SystemTitle, highest: u32)
        ensures
            final(self)@ == (ServerV {
                owner: Some(peer@),
                window: final(self)@.window,
                ..old(self)@
            }),
            final(self)@.window.highest == Some(highest),
            final(self)@.window.width == crate::client::session::fresh_window(
                old(self)@.config.replay_window,
            ).width,
            forall|v: u32| v <= highest ==> !final(self)@.window.admits(v),
            final(self).objects() == old(self).objects(),
    {
        self.replay_owner = Some(peer);
        self.peer_replay = ReplayWindow::resumed(highest, self.config.replay_window);
    }

    /// True while a value is being delivered or received block by block.
    #[must_use]
    pub fn is_block_transfer_in_progress(&self) -> (r: bool)
        ensures
            r == !(self@.transfer is Idle),
    {
        !matches!(self.transfer, Transfer::Idle)
    }

    /// Where the association is.
    #[must_use]
    pub fn state(&self) -> (r: ServerState)
        ensures
            r == self@.state,
    {
        self.state
    }

    /// The objects.
    pub fn store(&self) -> (r: &S)
        ensures
            *r == self.objects(),
    {
        &self.store
    }

    /// The objects, mutably.
    pub fn store_mut(&mut self) -> (r: &mut S)
        ensures
            *r == old(self).objects(),
            final(self).objects() == *final(r),
            final(self)@ == old(self)@,
    {
        &mut self.store
    }

    fn auth_key(&self) -> (r: Result<&[u8]>)
        ensures
            match r {
                Ok(k) => self@.crypto.auth_bytes() == Some(k@),
                Err(e) => self@.crypto.auth_bytes() is None && e == unsupported(),
            },
    {
        match self.protector.auth_key() {
            Some(k) => Ok(k),
            None => Err(Error::new(ErrorKind::Unsupported, 0)),
        }
    }

    fn next_counter(&mut self) -> (r: Result<u32>)
        ensures
            final(self).objects() == old(self).objects(),
            match r {
                Ok(v) => v == old(self)@.counter + 1 && final(self)@ == (ServerV {
                    counter: v,
                    ..old(self)@
                }),
                Err(e) => old(self)@.counter == u32::MAX && final(self)@ == old(self)@ && e
                    == unsupported(),
            },
    {
        self.invocation_counter.next()
    }

    /// Nothing is in flight any more.
    fn abandon(&mut self)
        ensures
            final(self)@ == old(self)@.idle(),
            final(self).objects() == old(self).objects(),
    {
        self.transfer = Transfer::Idle;
    }

    /// What protection adds to an APDU under the current policy: the `glo-` tag, the
    /// ciphered service's length prefix in its longest form, the security control byte,
    /// the invocation counter, and the truncated GCM tag.
    fn protection_overhead(&self) -> (n: usize)
        ensures
            n == self@.overhead(),
    {
        if self.config.security.is_none() {
            0
        } else {
            1 + 5 + 1 + 4 + 12
        }
    }

    /// The largest fragment a `get-response-with-datablock` can carry to this client.
    ///
    /// Deliberately conservative: every header field is counted at its longest. A few
    /// wasted bytes per block cost a block on a very long transfer; a fragment computed
    /// one byte too large is a reply the client cannot receive, discovered in the field.
    /// `check_fits` catches the second case regardless.
    fn max_fragment(&self) -> (n: usize)
        ensures
            n == self@.fragment(N as nat),
    {
        // APDU tag, response choice, invoke id, last-block flag, four-byte block number,
        // result choice, and a length prefix in its longest form.
        let header: usize = 1 + 1 + 1 + 1 + 4 + 1 + 5;
        let room: usize = (self.client_max_pdu_size as usize).saturating_sub(
            header,
        ).saturating_sub(self.protection_overhead());
        if room < N {
            room
        } else {
            N
        }
    }

    /// Refuse to emit a reply the client has said it cannot receive.
    ///
    /// A GET whose value is too large is segmented long before it reaches here, so this
    /// is the backstop rather than the mechanism: it catches a fragment size computed
    /// wrongly, and a response of a kind that has no segmentation (a SET result that
    /// overflows). Erring is the honest answer in both cases — the alternative is
    /// transmitting something the peer will drop.
    fn check_fits(&self, len: usize) -> (r: Result<()>)
        ensures
            r is Ok == (len <= self@.client_max),
            r matches Err(e) ==> e == self@.too_long(len as nat),
    {
        let max: usize = self.client_max_pdu_size as usize;
        if len > max {
            return Err(Error::new(ErrorKind::BufferTooSmall { needed: len - max }, 0));
        }
        Ok(())
    }

    /// Send a plain reply, protecting it when the policy says so.
    fn send_plain(&mut self, plain: &[u8], out: &mut [u8]) -> (r: Result<usize>)
        ensures
            old(self)@.sends_plain(
                plain@,
                ExchangeV {
                    n: N as nat,
                    before: old(out)@,
                    after: final(out)@,
                    next: final(self)@,
                    r,
                },
            ),
            final(self).objects() == old(self).objects(),
    {
        if plain.len() > N {
            return Err(Error::new(ErrorKind::BufferTooSmall { needed: plain.len() - N }, 0));
        }
        if self.config.security.is_none() {
            self.check_fits(plain.len())?;
            let room: usize = out.len();
            if plain.len() > room {
                return Err(
                    Error::new(ErrorKind::BufferTooSmall { needed: plain.len() - room }, 0),
                );
            }
            copy_into(out, plain);
            return Ok(plain.len());
        }
        let title = match self.config.system_title {
            Some(t) => t,
            None => {
                return Err(Error::new(ErrorKind::UnexpectedMessage, 0));
            },
        };
        let ic = self.next_counter()?;
        let ctx = Outgoing {
            system_title: title,
            invocation_counter: ic,
            auth_key: self.protector.auth_key(),
            policy: self.protector.policy(),
            general_allowed: self.negotiated.contains(Conformance::GENERAL_PROTECTION()),
        };
        assert(ctx@ =~= old(self)@.outgoing());
        let n = protect_apdu(&self.protector, &ctx, plain, out)?;
        self.check_fits(n)?;
        Ok(n)
    }

    /// Encode a reply and send it.
    fn send(&mut self, apdu: &Apdu<'_>, out: &mut [u8]) -> (r: Result<usize>)
        ensures
            old(self)@.sends(
                apdu@,
                ExchangeV {
                    n: N as nat,
                    before: old(out)@,
                    after: final(out)@,
                    next: final(self)@,
                    r,
                },
            ),
            final(self).objects() == old(self).objects(),
    {
        let mut w = BoundedWriter::new(N);
        assert(apdu.enc() == apdu@.enc() && apdu.encodable() == apdu@.fits());
        apdu.encode(&mut w)?;
        let plain = w.finish();
        assert(plain@ =~= apdu@.enc());
        self.send_plain(plain.as_slice(), out)
    }

    /// Write a reply as it is.
    fn write<E: Encode>(&mut self, apdu: &E, out: &mut [u8]) -> (r: Result<usize>)
        ensures
            old(self)@.writes(
                apdu.enc(),
                apdu.encodable(),
                ExchangeV {
                    n: N as nat,
                    before: old(out)@,
                    after: final(out)@,
                    next: final(self)@,
                    r,
                },
            ),
            final(self).objects() == old(self).objects(),
    {
        let mut w = BoundedWriter::new(out.len());
        apdu.encode(&mut w)?;
        let bytes = w.finish();
        assert(bytes@ =~= apdu.enc());
        copy_into(out, bytes.as_slice());
        Ok(bytes.len())
    }

    /// Refuse a replayed frame, naming the counter this end expects next.
    ///
    /// Sent unprotected for the same reason every other exception can be: it has no
    /// ciphered tag, and a peer whose counter is wrong is precisely the peer that cannot
    /// read a frame protected under the counter it is wrong about. It reveals nothing —
    /// an invocation counter travels in the clear in every protected frame — and it is
    /// the only thing that lets a restarted device recover without a site visit.
    fn counter_exception(&mut self, expected: u32, out: &mut [u8]) -> (r: Result<usize>)
        ensures
            old(self)@.writes(
                counter_exception_v(expected).enc(),
                counter_exception_v(expected).fits(),
                ExchangeV {
                    n: N as nat,
                    before: old(out)@,
                    after: final(out)@,
                    next: final(self)@,
                    r,
                },
            ),
            final(self).objects() == old(self).objects(),
    {
        let apdu = Apdu::ExceptionResponse(
            ExceptionResponse {
                state_error: StateError::ServiceNotAllowed,
                service_error: ServiceError::InvocationCounterError,
                expected_invocation_counter: Some(expected),
            },
        );
        assert(apdu.enc() == apdu@.enc() && apdu.encodable() == apdu@.fits());
        self.write(&apdu, out)
    }

    /// Refuse an APDU outright, protecting the refusal when the association can.
    ///
    /// `exception-response` has no ciphered tag, so protecting one means
    /// `general-glo-ciphering` and therefore the `general-protection` conformance bit.
    /// When it was negotiated the refusal is authenticated like every other reply, and a
    /// client can tell the server's diagnostic from one an on-path attacker injected;
    /// when it was not, there is no way to protect it and it goes out bare, which is what
    /// the client is prepared to accept for exactly this reason.
    ///
    /// Protecting it spends an invocation counter, so a peer that floods malformed APDUs
    /// consumes counter space. That is true of any protected reply and is bounded by the
    /// same 2³² ceiling; refusing to answer at all would be the larger problem.
    fn exception(
        &mut self,
        state_error: StateError,
        service_error: ServiceError,
        out: &mut [u8],
    ) -> (r: Result<usize>)
        ensures
            old(self)@.excepts(
                state_error,
                service_error,
                ExchangeV {
                    n: N as nat,
                    before: old(out)@,
                    after: final(out)@,
                    next: final(self)@,
                    r,
                },
            ),
            final(self).objects() == old(self).objects(),
    {
        let apdu = Apdu::ExceptionResponse(
            ExceptionResponse { state_error, service_error, expected_invocation_counter: None },
        );
        assert(apdu.enc() == apdu@.enc() && apdu.encodable() == apdu@.fits());
        if self.config.security.is_none() || !self.negotiated.contains(
            Conformance::GENERAL_PROTECTION(),
        ) {
            return self.write(&apdu, out);
        }
        self.send(&apdu, out)
    }

    fn not_possible(&mut self, out: &mut [u8]) -> (r: Result<usize>)
        ensures
            old(self)@.not_possible(
                ExchangeV {
                    n: N as nat,
                    before: old(out)@,
                    after: final(out)@,
                    next: final(self)@,
                    r,
                },
            ),
            final(self).objects() == old(self).objects(),
    {
        self.exception(StateError::ServiceNotAllowed, ServiceError::OperationNotPossible, out)
    }

    fn not_supported(&mut self, out: &mut [u8]) -> (r: Result<usize>)
        ensures
            old(self)@.not_supported(
                ExchangeV {
                    n: N as nat,
                    before: old(out)@,
                    after: final(out)@,
                    next: final(self)@,
                    r,
                },
            ),
            final(self).objects() == old(self).objects(),
    {
        self.exception(StateError::ServiceUnknown, ServiceError::ServiceNotSupported, out)
    }

    fn get_error(&mut self, invoke_id: InvokeId, e: DataAccessResult, out: &mut [u8]) -> (r: Result<
        usize,
    >)
        ensures
            old(self)@.sends(
                get_error_v(invoke_id, e),
                ExchangeV {
                    n: N as nat,
                    before: old(out)@,
                    after: final(out)@,
                    next: final(self)@,
                    r,
                },
            ),
            final(self).objects() == old(self).objects(),
    {
        let response = GetResponse::Normal { invoke_id, result: GetDataResult::Error(e) };
        self.send(&Apdu::GetResponse(response), out)
    }

    fn action_error(&mut self, invoke_id: InvokeId, e: ActionResult, out: &mut [u8]) -> (r: Result<
        usize,
    >)
        ensures
            old(self)@.sends(
                action_v(invoke_id, e),
                ExchangeV {
                    n: N as nat,
                    before: old(out)@,
                    after: final(out)@,
                    next: final(self)@,
                    r,
                },
            ),
            final(self).objects() == old(self).objects(),
    {
        let response = ActionResponse::Normal {
            invoke_id,
            response: ActionResponseWithOptionalData { result: e, return_parameters: None },
        };
        let apdu = Apdu::ActionResponse(response);
        assert(apdu@ =~= action_v(invoke_id, e));
        self.send(&apdu, out)
    }

    fn set_error(&mut self, invoke_id: InvokeId, e: DataAccessResult, out: &mut [u8]) -> (r: Result<
        usize,
    >)
        ensures
            old(self)@.sends(
                set_v(invoke_id, e),
                ExchangeV {
                    n: N as nat,
                    before: old(out)@,
                    after: final(out)@,
                    next: final(self)@,
                    r,
                },
            ),
            final(self).objects() == old(self).objects(),
    {
        self.send(&Apdu::SetResponse(SetResponse::Normal { invoke_id, result: e }), out)
    }

    /// A short-name read that produced nothing at all: one entry, one error.
    fn read_error(&mut self, e: DataAccessResult, out: &mut [u8]) -> (r: Result<usize>)
        ensures
            old(self)@.sends(
                read_error_v(e),
                ExchangeV {
                    n: N as nat,
                    before: old(out)@,
                    after: final(out)@,
                    next: final(self)@,
                    r,
                },
            ),
            final(self).objects() == old(self).objects(),
    {
        let mut results: Vec<ReadResult<'_>> = Vec::new();
        results.push(ReadResult::Error(e));
        assert(views(results@) =~= seq![ReadResultV::Error(e)]);
        self.send(&Apdu::ReadResponse(ReadResponse { results }), out)
    }

    /// Emit the next fragment of whatever is being sent block by block.
    fn send_next_block(&mut self, out: &mut [u8]) -> (r: Result<usize>)
        ensures
            old(self)@.sends_block(
                ExchangeV {
                    n: N as nat,
                    before: old(out)@,
                    after: final(out)@,
                    next: final(self)@,
                    r,
                },
            ),
            final(self).objects() == old(self).objects(),
    {
        if !matches!(self.transfer, Transfer::Sending { .. }) {
            return self.not_possible(out);
        }
        let max: usize = self.max_fragment();
        let mut transfer = Transfer::Idle;
        core::mem::swap(&mut self.transfer, &mut transfer);
        assert(transfer@ == old(self)@.transfer);
        assert(self@ == old(self)@.idle());
        match transfer {
            Transfer::Sending { invoke_id, service, rest, block } => {
                if max == 0 {
                    // The negotiated PDU size leaves no room for a payload at all.
                    return match service {
                        Outbound::Get => self.get_error(
                            invoke_id,
                            DataAccessResult::LongGetAborted,
                            out,
                        ),
                        Outbound::Action => self.action_error(
                            invoke_id,
                            ActionResult::LongActionAborted,
                            out,
                        ),
                        Outbound::Read => self.read_error(DataAccessResult::LongGetAborted, out),
                    };
                }
                proof {
                    use_type_invariant(&rest);
                }
                let len: usize = rest.bytes.len();
                let end: usize = if max < len - rest.sent {
                    rest.sent + max
                } else {
                    len
                };
                let payload: &[u8] = vstd::slice::slice_subrange(
                    rest.bytes.as_slice(),
                    rest.sent,
                    end,
                );
                let last_block = end == len;
                let number: u32 = block.saturating_add(1);
                if matches!(service, Outbound::Read) && number > 0xFFFF {
                    // Short-name block numbers are sixteen bits, not thirty-two.
                    self.transfer = Transfer::Sending { invoke_id, service, rest, block };
                    return Err(Error::new(ErrorKind::InvalidLength, 0));
                }
                let apdu = block_apdu(invoke_id, service, last_block, number, payload);
                assert(apdu@ == old(self)@.block_v(N as nat));
                let r = self.send(&apdu, out);
                if r.is_err() {
                    self.transfer = Transfer::Sending { invoke_id, service, rest, block };
                } else if !last_block {
                    let Remainder { bytes, .. } = rest;
                    self.transfer =
                    Transfer::Sending {
                        invoke_id,
                        service,
                        rest: Remainder { bytes, sent: end },
                        block: number,
                    };
                }
                r
            },
            _ => Err(Error::new(ErrorKind::UnexpectedMessage, 0)),
        }
    }

    /// Start delivering a response that does not fit one APDU.
    fn begin_blocks(
        &mut self,
        invoke_id: InvokeId,
        service: Outbound,
        bytes: Vec<u8>,
        out: &mut [u8],
    ) -> (r: Result<usize>)
        ensures
            old(self)@.begins_blocks(
                invoke_id,
                service,
                bytes@,
                ExchangeV {
                    n: N as nat,
                    before: old(out)@,
                    after: final(out)@,
                    next: final(self)@,
                    r,
                },
            ),
            final(self).objects() == old(self).objects(),
    {
        self.transfer =
        Transfer::Sending { invoke_id, service, rest: Remainder { bytes, sent: 0 }, block: 0 };
        self.send_next_block(out)
    }

    /// Remove protection from an incoming APDU, if it has any.
    fn unprotect(&mut self, apdu: &[u8]) -> (r: Result<Vec<u8>>)
        ensures
            ({
                let s = old(self)@;
                let (opened, window) = unwrapped_by(
                    &s.crypto,
                    s.incoming(s.policy, plain_from_client()),
                    s.window,
                    apdu@,
                    N as nat,
                );
                &&& final(self)@ == (ServerV { window, ..s })
                &&& match r {
                    Ok(v) => opened == Ok::<Seq<u8>, Error>(v@),
                    Err(e) => opened == Err::<Seq<u8>, Error>(e),
                }
            }),
            final(self).objects() == old(self).objects(),
    {
        let allowed = [ApduTag::Aarq, ApduTag::ReleaseRequest];
        let ctx = Incoming {
            local: self.config.system_title,
            peer: self.client_system_title,
            auth_key: self.protector.auth_key(),
            policy: self.protector.policy(),
            plain_allowed: allowed.as_slice(),
        };
        assert(ctx@ =~= self@.incoming(self@.policy, plain_from_client()));
        unprotect_apdu(&self.protector, &ctx, &mut self.peer_replay, apdu, N)
    }

    /// Remove protection from the AARQ's user information, which is protected with the
    /// global key set even when the association will go on to use a dedicated one — the
    /// dedicated key is what this very message delivers.
    fn unprotect_initiate(&mut self, apdu: &[u8]) -> (r: Result<Vec<u8>>)
        ensures
            ({
                let s = old(self)@;
                let (opened, window) = unwrapped_by(
                    &s.crypto,
                    s.incoming(s.config.security.global(), plain_request()),
                    s.window,
                    apdu@,
                    256,
                );
                &&& final(self)@ == (ServerV { window, ..s })
                &&& match r {
                    Ok(v) => opened == Ok::<Seq<u8>, Error>(v@),
                    Err(e) => opened == Err::<Seq<u8>, Error>(e),
                }
            }),
            final(self).objects() == old(self).objects(),
    {
        let allowed = [ApduTag::InitiateRequest];
        let ctx = Incoming {
            local: self.config.system_title,
            peer: self.client_system_title,
            auth_key: self.protector.auth_key(),
            policy: self.config.security.global(),
            plain_allowed: allowed.as_slice(),
        };
        assert(ctx@ =~= self@.incoming(self@.config.security.global(), plain_request()));
        unprotect_apdu(&self.protector, &ctx, &mut self.peer_replay, apdu, 256)
    }
}

} // verus!
