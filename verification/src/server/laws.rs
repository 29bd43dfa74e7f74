//! What holds of a server whatever it is sent.

use vstd::prelude::*;

#[allow(unused_imports)]
use super::association::StepV;
#[allow(unused_imports)]
use super::invoke::{invokes, MethodResult};
#[allow(unused_imports)]
use super::model::{block_apdu_v, exception_v, ExchangeV, ServerV, TransferV};
#[allow(unused_imports)]
use super::read::{reads, reads_alone, reads_by_name};
#[allow(unused_imports)]
use super::store::{allows, grants, ObjectStore, StoreResult};
#[allow(unused_imports)]
use super::write::writes_to;
#[allow(unused_imports)]
use super::ServerState;
#[allow(unused_imports)]
use crate::acse::{Aarq, AarqV};
#[allow(unused_imports)]
use crate::axdr::data::{p_data, DataV};
#[allow(unused_imports)]
use crate::client::blocks::{law_transfer_is_gathered, lemma_after, CollectorV, SenderV, TargetV};
#[allow(unused_imports)]
use crate::codec::{whole, Cursor, Decode, Error, Result};
#[allow(unused_imports)]
use crate::cosem::access::{AttributeAccess, MethodAccess};
#[allow(unused_imports)]
use crate::security::counter::still_refuses;
#[allow(unused_imports)]
use crate::security::wrap::{law_refused_stays_refused, unwrapped_by};
#[allow(unused_imports)]
use crate::security::CryptoProvider;
#[allow(unused_imports)]
use crate::xdlms::apdu::ApduV;
#[allow(unused_imports)]
use crate::xdlms::ids::InvokeId;
#[allow(unused_imports)]
use crate::xdlms::initiate::Conformance;
#[allow(unused_imports)]
use crate::xdlms::result::{DataAccessResult, ServiceError, StateError};
#[allow(unused_imports)]
use crate::xdlms::service::{
    AccessRequestV, ActionRequestV, AttributeDescriptorV, DataBlockSAV, GetRequestV,
    MethodDescriptorV, ReadRequestV, SelectiveAccessV, SetRequestV, VariableAccessV,
};
#[allow(unused_imports)]
use crate::xdlms::tag::{tag_of, ApduTag};

verus! {

impl<P: CryptoProvider> ServerV<P> {
    /// Whether a server can come to this by answering: it spends counters and nothing else
    /// that outlives the association.
    pub open spec fn only_answers(self, next: ServerV<P>) -> bool {
        &&& next.config == self.config
        &&& next.window == self.window
        &&& next.owner == self.owner
        &&& next.counter >= self.counter
    }

    /// Whether a reply is one that the client can receive, or the three bytes of a refusal.
    pub open spec fn can_be_received(self, x: ExchangeV<P>) -> bool {
        x.r matches Ok(n) ==> n <= self.client_max || n <= 3
    }

    /// Whether a server can come to this by handling an APDU: it is the same server, it
    /// never goes back to a counter it has sent under, and it goes on refusing every counter
    /// of the same peer that it refuses.
    pub open spec fn goes_on(self, next: ServerV<P>) -> bool {
        &&& next.config == self.config
        &&& next.counter >= self.counter
        &&& next.window.wf()
        &&& next.owner == self.owner ==> still_refuses(self.window, next.window)
    }
}

/// A refusal of a request as such is three bytes.
proof fn lemma_refusals()
    ensures
        forall|a: StateError, b: ServiceError| (#[trigger] exception_v(a, b)).enc().len() == 3,
{
    reveal(ApduV::enc);
}

#[verifier::rlimit(40)]
proof fn lemma_gets<P: CryptoProvider, S: ObjectStore>(
    s: ServerV<P>,
    store: S,
    req: GetRequestV,
    x: ExchangeV<P>,
    after: S,
)
    requires
        s.gets(store, req, x, after),
    ensures
        s.only_answers(x.next),
        s.can_be_received(x),
{
    lemma_refusals();
}

#[verifier::rlimit(60)]
proof fn lemma_sets<P: CryptoProvider, S: ObjectStore>(
    s: ServerV<P>,
    store: S,
    req: SetRequestV,
    x: ExchangeV<P>,
    after: S,
)
    requires
        s.sets(store, req, x, after),
    ensures
        s.only_answers(x.next),
        s.can_be_received(x),
{
    lemma_refusals();
}

proof fn lemma_acts_once<P: CryptoProvider, S: ObjectStore>(
    s: ServerV<P>,
    store: S,
    invoke_id: InvokeId,
    d: MethodDescriptorV,
    parameters: Option<DataV>,
    x: ExchangeV<P>,
    after: S,
)
    requires
        s.acts_once(store, invoke_id, d, parameters, x, after),
    ensures
        s.only_answers(x.next),
        s.can_be_received(x),
{
    let outcome = choose|outcome: MethodResult<Seq<u8>>| #[trigger]
        invokes(store, d, parameters, x.n, outcome, after) && s.answers_action(
            invoke_id,
            outcome,
            x,
        );
    if s.answers_action(invoke_id, outcome, x) {
        lemma_refusals();
    }
}

proof fn lemma_proves<P: CryptoProvider>(
    s: ServerV<P>,
    invoke_id: InvokeId,
    d: MethodDescriptorV,
    parameters: Option<DataV>,
    x: ExchangeV<P>,
)
    requires
        s.proves(invoke_id, d, parameters, x),
    ensures
        s.only_answers(x.next),
        s.can_be_received(x),
{
    lemma_refusals();
}

proof fn lemma_takes_action<P: CryptoProvider, S: ObjectStore>(
    s: ServerV<P>,
    store: S,
    invoke_id: InvokeId,
    block: DataBlockSAV,
    x: ExchangeV<P>,
    after: S,
)
    requires
        s.takes_action(store, invoke_id, block, x, after),
    ensures
        s.only_answers(x.next),
        s.can_be_received(x),
{
    if let TransferV::ReceivingAction { descriptor, value, .. } = s.transfer {
        if let Ok(v) = whole(p_data(Cursor::start(value + block.raw_data), 0)) {
            if s.idle().acts_once(store, invoke_id, descriptor, Some(v), x, after) {
                lemma_acts_once(s.idle(), store, invoke_id, descriptor, Some(v), x, after);
            }
        }
    }
}

proof fn lemma_acts<P: CryptoProvider, S: ObjectStore>(
    s: ServerV<P>,
    store: S,
    req: ActionRequestV,
    x: ExchangeV<P>,
    after: S,
)
    requires
        s.acts(store, req, x, after),
    ensures
        s.only_answers(x.next),
        s.can_be_received(x),
{
    lemma_refusals();
    if s.state is AwaitingHlsReply {
        if let ActionRequestV::Normal { invoke_id, descriptor, parameters } = req {
            lemma_proves(s, invoke_id, descriptor, parameters, x);
        }
    } else if s.state is Associated && s.agreed(Conformance::ACTION()) {
        match req {
            ActionRequestV::Normal { invoke_id, descriptor, parameters } => {
                lemma_acts_once(s.idle(), store, invoke_id, descriptor, parameters, x, after);
            },
            ActionRequestV::WithFirstPblock { invoke_id, descriptor, block } => {
                if s.agreed(Conformance::BLOCK_TRANSFER_WITH_ACTION()) {
                    lemma_takes_action(
                        s.receiving_action(invoke_id, descriptor),
                        store,
                        invoke_id,
                        block,
                        x,
                        after,
                    );
                }
            },
            ActionRequestV::WithPblock { invoke_id, block } => {
                lemma_takes_action(s, store, invoke_id, block, x, after);
            },
            _ => {},
        }
    }
}

proof fn lemma_accesses<P: CryptoProvider, S: ObjectStore>(
    s: ServerV<P>,
    store: S,
    req: AccessRequestV,
    x: ExchangeV<P>,
    after: S,
)
    requires
        s.accesses(store, req, x, after),
    ensures
        s.only_answers(x.next),
        s.can_be_received(x),
{
    lemma_refusals();
}

proof fn lemma_reads_short<P: CryptoProvider, S: ObjectStore>(
    s: ServerV<P>,
    store: S,
    req: ReadRequestV,
    x: ExchangeV<P>,
    after: S,
)
    requires
        s.reads_short(store, req, x, after),
    ensures
        s.only_answers(x.next),
        s.can_be_received(x),
{
    lemma_refusals();
}

proof fn lemma_writes_short<P: CryptoProvider, S: ObjectStore>(
    s: ServerV<P>,
    store: S,
    entries: Seq<VariableAccessV>,
    values: Seq<DataV>,
    confirmed: bool,
    x: ExchangeV<P>,
    after: S,
)
    requires
        s.writes_short(store, entries, values, confirmed, x, after),
    ensures
        s.only_answers(x.next),
        s.can_be_received(x),
{
    lemma_refusals();
}

proof fn lemma_serves<P: CryptoProvider, S: ObjectStore>(
    s: ServerV<P>,
    store: S,
    request: ApduV,
    x: ExchangeV<P>,
    after: S,
)
    requires
        s.serves(store, request, x, after),
    ensures
        s.only_answers(x.next),
        s.can_be_received(x),
{
    lemma_refusals();
    match request {
        ApduV::GetRequest(req) => lemma_gets(s, store, req, x, after),
        ApduV::SetRequest(req) => lemma_sets(s, store, req, x, after),
        ApduV::ActionRequest(req) => lemma_acts(s, store, req, x, after),
        ApduV::AccessRequest(req) => lemma_accesses(s, store, req, x, after),
        ApduV::ReadRequest(req) => lemma_reads_short(s, store, req, x, after),
        ApduV::WriteRequest(req) => lemma_writes_short(
            s,
            store,
            req.specification,
            req.values,
            true,
            x,
            after,
        ),
        ApduV::UnconfirmedWriteRequest(req) => lemma_writes_short(
            s,
            store,
            req.specification,
            req.values,
            false,
            x,
            after,
        ),
        _ => {},
    }
}

/// The server that a step leaves.
spec fn left_by<P>(step: StepV<P>) -> ServerV<P> {
    match step {
        StepV::Go(s) => s,
        StepV::Refuse(s, _) => s,
        StepV::Replay(s) => s,
        StepV::Fail(s, _) => s,
    }
}

proof fn lemma_admits<P: CryptoProvider>(s: ServerV<P>, aarq: AarqV)
    requires
        s.window.wf(),
    ensures
        s.goes_on(left_by(s.admits(aarq))),
{
}

proof fn lemma_proposed<P: CryptoProvider>(s: ServerV<P>, aarq: AarqV, keyed: Option<P>)
    requires
        s.window.wf(),
    ensures
        s.goes_on(left_by(s.proposed(aarq, keyed))),
        left_by(s.proposed(aarq, keyed)).owner == s.owner,
{
    if let Some(info) = aarq.user_information {
        law_refused_stays_refused(
            &s.crypto,
            s.incoming(s.config.security.global(), super::model::plain_request()),
            s.window,
            info,
            256,
        );
    }
}

proof fn lemma_challenged<P: CryptoProvider>(s: ServerV<P>, aarq: AarqV)
    ensures
        s.only_answers(left_by(s.challenged(aarq))),
{
}

proof fn lemma_decides<P: CryptoProvider>(s: ServerV<P>, aarq: AarqV, keyed: Option<P>)
    requires
        s.window.wf(),
    ensures
        s.goes_on(left_by(s.decides(aarq, keyed))),
{
    lemma_admits(s, aarq);
    if let StepV::Go(a) = s.admits(aarq) {
        lemma_proposed(a, aarq, keyed);
        if let StepV::Go(b) = a.proposed(aarq, keyed) {
            lemma_challenged(b, aarq);
        }
    }
}

proof fn lemma_accepts<P: CryptoProvider, S: ObjectStore>(
    s: ServerV<P>,
    aarq: AarqV,
    store: S,
    x: ExchangeV<P>,
    after: S,
)
    requires
        s.accepts(aarq, store, x, after),
    ensures
        s.only_answers(x.next),
{
}

proof fn lemma_associates<P: CryptoProvider, S: ObjectStore>(
    s: ServerV<P>,
    aarq: AarqV,
    forgotten: P,
    keyed: Option<P>,
    challenge: Result<Seq<u8>>,
    store: S,
    x: ExchangeV<P>,
    after: S,
)
    requires
        s.window.wf(),
        s.associates(aarq, forgotten, keyed, challenge, store, x, after),
    ensures
        s.goes_on(x.next),
{
    let c = s.cleared(forgotten);
    lemma_decides(c, aarq, keyed);
    let step = c.decides(aarq, keyed);
    if let StepV::Go(g) = step {
        if !crate::server::association::mechanism_of(aarq).is_high_level() {
            lemma_accepts(g, aarq, store, x, after);
        } else if let Ok(drawn) = challenge {
            lemma_accepts(
                ServerV {
                    server_challenge: drawn,
                    state: ServerState::AwaitingHlsReply,
                    ..g
                },
                aarq,
                store,
                x,
                after,
            );
        }
    }
}

/// Whatever a server is sent, it stays the server it was set up as, never goes back to a
/// counter that it has sent under, and goes on refusing every counter of the same peer that
/// it refuses — through releases and new associations too.
pub proof fn law_server_goes_on<P: CryptoProvider, S: ObjectStore>(
    s: ServerV<P>,
    store: S,
    apdu: Seq<u8>,
    x: ExchangeV<P>,
    after: S,
)
    requires
        s.window.wf(),
        s.handles(store, apdu, x, after),
    ensures
        s.goes_on(x.next),
{
    let first = if apdu.len() == 0 {
        0u8
    } else {
        apdu[0]
    };
    if apdu.len() <= s.config.max_pdu_size {
        match tag_of(first) {
            None => {},
            Some(ApduTag::Aarq) => {
                if let Ok(aarq) = whole(Aarq::parse(Cursor::start(apdu))) {
                    let (forgotten, keyed, challenge) = choose|
                        forgotten: P,
                        keyed: Option<P>,
                        challenge: Result<Seq<u8>>,
                    | #[trigger]
                        s.associates(aarq, forgotten, keyed, challenge, store, x, after);
                    lemma_associates(s, aarq, forgotten, keyed, challenge, store, x, after);
                }
            },
            Some(ApduTag::ReleaseRequest) => {},
            Some(_) => {
                if s.state is Associated || s.state is AwaitingHlsReply {
                    let (opened, window) = unwrapped_by(
                        &s.crypto,
                        s.incoming(s.policy, super::model::plain_from_client()),
                        s.window,
                        apdu,
                        x.n,
                    );
                    law_refused_stays_refused(
                        &s.crypto,
                        s.incoming(s.policy, super::model::plain_from_client()),
                        s.window,
                        apdu,
                        x.n,
                    );
                    let t = ServerV { window, ..s };
                    if let Ok(plain) = opened {
                        if let Ok(request) = whole(ApduV::p(Cursor::start(plain))) {
                            lemma_serves(t, store, request, x, after);
                        }
                    }
                }
            },
        }
    }
}

/// No answer to a request is longer than the client has said it can receive, except that a
/// refusal of the request as such may always be sent.
pub proof fn law_answers_can_be_received<P: CryptoProvider, S: ObjectStore>(
    s: ServerV<P>,
    store: S,
    request: ApduV,
    x: ExchangeV<P>,
    after: S,
)
    requires
        s.serves(store, request, x, after),
    ensures
        s.can_be_received(x),
{
    lemma_serves(s, store, request, x, after);
}

/// A server that is reset or released keeps its counter, its window and whose window it is.
pub proof fn law_forgetting_keeps_the_counters<P: CryptoProvider>(s: ServerV<P>, forgotten: P)
    ensures
        s.only_answers(s.cleared(forgotten)),
        s.cleared(forgotten).counter == s.counter,
{
}

/// Without an association nothing reaches the objects: an APDU that neither opens nor closes
/// one leaves the store as it was — and so does everything that arrives before the client
/// has proved itself.
pub proof fn law_nothing_without_an_association<P: CryptoProvider, S: ObjectStore>(
    s: ServerV<P>,
    store: S,
    apdu: Seq<u8>,
    x: ExchangeV<P>,
    after: S,
)
    requires
        s.handles(store, apdu, x, after),
        !(s.state is Associated),
        apdu.len() > 0 ==> tag_of(apdu[0]) != Some(ApduTag::Aarq) && tag_of(apdu[0]) != Some(
            ApduTag::ReleaseRequest,
        ),
    ensures
        after == store,
{
    assert(tag_of(0u8) is None) by {
        reveal(tag_of);
    }
}

/// A value is read only where the store grants the right to read it, alone, in a list or by
/// short name.
pub proof fn law_reading_takes_the_right<S: ObjectStore>(
    before: S,
    d: AttributeDescriptorV,
    access: Option<SelectiveAccessV>,
    room: nat,
    outcome: StoreResult<Seq<u8>>,
    after: S,
)
    requires
        reads(before, d, access, room, outcome, after) || reads_alone(
            before,
            d,
            access,
            room,
            outcome,
            after,
        ) || reads_by_name(before, d, access, room, outcome, after),
        outcome is Ok,
    ensures
        exists|rights: AttributeAccess| #[trigger] grants(before, d, rights) && rights.can_read(),
{
    reveal(reads);
}

/// A value is written only where the store grants the right to write it.
pub proof fn law_writing_takes_the_right<S: ObjectStore>(
    before: S,
    d: AttributeDescriptorV,
    access: Option<SelectiveAccessV>,
    value: DataV,
    after: S,
)
    requires
        writes_to(before, d, access, value, DataAccessResult::Success, after),
    ensures
        exists|rights: AttributeAccess| #[trigger] grants(before, d, rights) && rights.can_write(),
{
}

/// A method runs only where the store grants the right to invoke it.
pub proof fn law_invoking_takes_the_right<S: ObjectStore>(
    before: S,
    d: MethodDescriptorV,
    parameters: Option<DataV>,
    room: nat,
    outcome: MethodResult<Seq<u8>>,
    after: S,
)
    requires
        invokes(before, d, parameters, room, outcome, after),
        outcome is Ok,
    ensures
        exists|rights: MethodAccess| #[trigger] allows(before, d, rights) && rights.can_invoke(),
{
    reveal(invokes);
}

impl<P: CryptoProvider> ServerV<P> {
    /// What is being sent block by block, as a transfer.
    pub open spec fn as_transfer(self, n: nat) -> SenderV {
        match self.transfer {
            TransferV::Sending { bytes, sent, block, .. } => SenderV {
                target: TargetV::AttributeList(Seq::empty()),
                bytes,
                sent,
                block,
                fragment: self.fragment(n),
            },
            _ => arbitrary(),
        }
    }
}

/// A response that goes out in blocks is a transfer: each block is the next of it, and once
/// it has gone out the transfer has advanced, or is over where it was the last.
pub proof fn law_response_blocks_are_a_transfer<P: CryptoProvider>(s: ServerV<P>, n: nat)
    requires
        s.transfer is Sending,
    ensures
        ({
            let t = s.as_transfer(n);
            let next = ServerV { transfer: s.block_sent(n), ..s };
            &&& s.block_v(n) == block_apdu_v(
                s.transfer->Sending_invoke_id,
                s.transfer->service,
                t.next().last_block,
                t.next().block_number,
                t.next().raw_data,
            )
            &&& if t.next().last_block {
                next.transfer is Idle
            } else {
                next.as_transfer(n) == t.advanced()
            }
        }),
{
}

/// A response that goes out in blocks is gathered into the same value: a collector with room
/// for it holds it once it has taken every block.
pub proof fn law_response_is_gathered<P: CryptoProvider>(s: ServerV<P>, n: nat, c: CollectorV)
    requires
        s.transfer matches TransferV::Sending { bytes, sent, block, .. } && sent == 0 && block == 0
            && bytes.len() <= c.capacity && bytes.len() <= usize::MAX,
        s.fragment(n) > 0,
        s.as_transfer(n).count() <= u32::MAX,
        c.bytes.len() == 0,
        c.last == 0,
    ensures
        c.gathered(s.as_transfer(n).pieces(s.as_transfer(n).count())) == Ok::<CollectorV, Error>(
            CollectorV {
                bytes: s.transfer->bytes,
                last: s.as_transfer(n).count() as u32,
                capacity: c.capacity,
            },
        ),
{
    let t = s.as_transfer(n);
    assert(t.count() > 0) by {
        if t.bytes.len() > 0 && t.count() == 0 {
            vstd::arithmetic::div_mod::lemma_fundamental_div_mod(
                t.bytes.len() as int,
                t.fragment as int,
            );
            assert(t.fragment * (t.bytes.len() / t.fragment) == 0) by (nonlinear_arith)
                requires
                    t.bytes.len() / t.fragment == 0,
            ;
        }
    }
    law_transfer_is_gathered(t, c, 0);
}

/// A value that a client writes in blocks arrives as it was: after so many blocks the server
/// holds so much of it, and with the last one it writes all of it.
pub proof fn law_written_blocks_arrive<P: CryptoProvider, S: ObjectStore>(
    t: SenderV,
    i: nat,
    s: ServerV<P>,
    store: S,
    x: ExchangeV<P>,
    after: S,
)
    requires
        t.wf(),
        t.sent == 0,
        t.block == 0,
        i < t.count() <= u32::MAX,
        s.transfer matches TransferV::ReceivingSet { target, value, block, .. } && value
            == t.bytes.take(t.after(i).sent as int) && block == i && target.header().len()
            + t.bytes.len() <= x.n,
        s.takes_set(store, s.transfer->ReceivingSet_invoke_id, t.after(i).next(), x, after),
    ensures
        ({
            let id = s.transfer->ReceivingSet_invoke_id;
            let target = s.transfer->target;
            if i + 1 == t.count() {
                s.idle().ends_set(store, id, target, t.bytes, (i + 1) as u32, x, after)
            } else {
                &&& after == store
                &&& x.next.transfer == TransferV::ReceivingSet {
                    invoke_id: id,
                    target,
                    value: t.bytes.take(t.after(i + 1).sent as int),
                    block: (i + 1) as u32,
                }
            }
        }),
{
    lemma_piece(t, i);
}

/// A parameter that a client sends in blocks arrives as it was.
pub proof fn law_parameter_blocks_arrive<P: CryptoProvider, S: ObjectStore>(
    t: SenderV,
    i: nat,
    s: ServerV<P>,
    store: S,
    x: ExchangeV<P>,
    after: S,
)
    requires
        t.wf(),
        t.sent == 0,
        t.block == 0,
        i < t.count() <= u32::MAX,
        s.transfer matches TransferV::ReceivingAction { value, block, .. } && value
            == t.bytes.take(t.after(i).sent as int) && block == i && t.bytes.len() <= x.n,
        s.takes_action(store, s.transfer->ReceivingAction_invoke_id, t.after(i).next(), x, after),
    ensures
        ({
            let id = s.transfer->ReceivingAction_invoke_id;
            let descriptor = s.transfer->descriptor;
            if i + 1 == t.count() {
                s.idle().ends_action(store, id, descriptor, t.bytes, x, after)
            } else {
                &&& after == store
                &&& x.next.transfer == TransferV::ReceivingAction {
                    invoke_id: id,
                    descriptor,
                    value: t.bytes.take(t.after(i + 1).sent as int),
                    block: (i + 1) as u32,
                }
            }
        }),
{
    lemma_piece(t, i);
}

/// What a block adds to what came before it.
proof fn lemma_piece(t: SenderV, i: nat)
    requires
        t.wf(),
        t.sent == 0,
        t.block == 0,
        i < t.count() <= u32::MAX,
    ensures
        ({
            let piece = t.after(i).next();
            &&& piece.block_number == i + 1
            &&& piece.last_block == (i + 1 == t.count())
            &&& t.bytes.take(t.after(i).sent as int) + piece.raw_data == t.bytes.take(
                t.after(i + 1).sent as int,
            )
            &&& piece.last_block ==> t.bytes.take(t.after(i + 1).sent as int) == t.bytes
            &&& t.after(i + 1).sent <= t.bytes.len()
        }),
{
    let c = CollectorV { bytes: Seq::empty(), capacity: t.bytes.len(), last: 0 };
    law_transfer_is_gathered(t, c, i);
    lemma_after(t, i);
    lemma_after(t, i + 1);
    let before = t.after(i);
    assert(t.after(i + 1) == before.advanced());
    assert(t.bytes.take(before.sent as int) + before.next().raw_data =~= t.bytes.take(
        before.end() as int,
    ));
    assert(t.bytes.take(t.bytes.len() as int) =~= t.bytes);
}

} // verus!
