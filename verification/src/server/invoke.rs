//! Invoking methods, alone or among reads and writes.

use vstd::prelude::*;

use super::model::Outbound;
use super::store::{ask_to_run, tell, AuditEvent, ObjectStore};
use super::{Server, ServerState, Transfer};
use crate::axdr::data::Data;
use crate::codec::{extend, Error, ErrorKind, Result, Writer};
use crate::cosem::access::MethodAccess;
use crate::security::CryptoProvider;
use crate::xdlms::apdu::Apdu;
use crate::xdlms::ids::InvokeId;
use crate::xdlms::initiate::Conformance;
use crate::xdlms::result::ActionResult;
use crate::xdlms::service::{
    ActionRequest, ActionResponse, ActionResponseWithOptionalData, DataBlockSA, GetDataResult,
    MethodDescriptor, MAX_ACCESS_ITEMS,
};
#[allow(unused_imports)]
use super::model::{action_v, next_number, ExchangeV, ServerV, TransferV};
#[allow(unused_imports)]
use super::store::{allows, noted, runs};
#[allow(unused_imports)]
use super::write::no_room_left;
#[allow(unused_imports)]
use crate::axdr::data::{p_data, DataV};
#[allow(unused_imports)]
use crate::codec::{enc_length, whole, Cursor};
#[allow(unused_imports)]
use crate::obis::{lemma_name_of, name_of};
#[allow(unused_imports)]
use crate::xdlms::apdu::ApduV;
#[allow(unused_imports)]
use crate::xdlms::list::{opt_view, views};
#[allow(unused_imports)]
use crate::xdlms::service::{
    ActionRequestV, ActionResponseV, ActionResponseWithOptionalDataV, DataBlockSAV, GetDataResultV,
    MethodDescriptorV,
};

verus! {

/// What a method came to: what it returned, if anything, or why it did not run.
pub type MethodResult<T> = core::result::Result<Option<T>, ActionResult>;

/// What a client is told of an invocation: the rights come first, and a method that claims
/// a value and writes none has not returned anything.
pub open spec fn method_outcome(
    rights: MethodAccess,
    written: Seq<u8>,
    r: core::result::Result<bool, ActionResult>,
) -> MethodResult<Seq<u8>> {
    if !rights.can_invoke() {
        Err(ActionResult::ReadWriteDenied)
    } else {
        match r {
            Ok(true) => if written.len() == 0 {
                Err(ActionResult::OtherReason)
            } else {
                Ok(Some(written))
            },
            Ok(false) => Ok(None),
            Err(e) => Err(e),
        }
    }
}

/// What a store is told of an invocation: what it answered, once the rights are granted.
pub open spec fn answered_action(
    rights: MethodAccess,
    r: core::result::Result<bool, ActionResult>,
) -> ActionResult {
    if !rights.can_invoke() {
        ActionResult::ReadWriteDenied
    } else {
        match r {
            Ok(_) => ActionResult::Success,
            Err(e) => e,
        }
    }
}

/// Whether calling a method of a store comes to this: it is called where the store grants
/// the right, and only there.
pub open spec fn calls<S: ObjectStore>(
    before: S,
    d: MethodDescriptorV,
    parameters: Option<DataV>,
    rights: MethodAccess,
    room: nat,
    written: Seq<u8>,
    r: core::result::Result<bool, ActionResult>,
    after: S,
) -> bool {
    if rights.can_invoke() {
        runs(before, d, parameters, room, written, r, after)
    } else {
        after == before
    }
}

/// The record of an invocation.
pub open spec fn method_noted<S: ObjectStore>(
    before: S,
    d: MethodDescriptorV,
    outcome: ActionResult,
    after: S,
) -> bool {
    noted(
        before,
        AuditEvent::MethodInvoked {
            class_id: d.class_id,
            logical_name: name_of(d.instance_id),
            method_id: d.method_id,
            outcome,
        },
        after,
    )
}

/// Whether invoking a method of a store comes to this, with so much room for what it
/// returns, and leaves it like this: the store is asked for the rights, for the method where
/// it grants them, and told what it answered.
#[verifier::opaque]
pub open spec fn invokes<S: ObjectStore>(
    before: S,
    d: MethodDescriptorV,
    parameters: Option<DataV>,
    room: nat,
    outcome: MethodResult<Seq<u8>>,
    after: S,
) -> bool {
    exists|
        rights: MethodAccess,
        written: Seq<u8>,
        r: core::result::Result<bool, ActionResult>,
        held: S,
    |
        {
            &&& allows(before, d, rights)
            &&& #[trigger] calls(before, d, parameters, rights, room, written, r, held)
            &&& outcome == method_outcome(rights, written, r)
            &&& method_noted(held, d, answered_action(rights, r), after)
        }
}

/// The parameter of a method: `null-data` stands for none.
pub open spec fn parameter_of(v: DataV) -> Option<DataV> {
    if v is Null {
        None
    } else {
        Some(v)
    }
}

/// The room that is left after some outcomes.
pub open spec fn left_after_actions(outcomes: Seq<MethodResult<Seq<u8>>>, n: nat) -> int {
    n - actions_bytes(outcomes).len()
}

/// Whether a method of a list came to its outcome. What stands before a value takes three
/// bytes, and the value has what is left behind them.
pub open spec fn invoked_at<S: ObjectStore>(
    items: Seq<MethodDescriptorV>,
    parameters: Seq<DataV>,
    n: nat,
    stores: Seq<S>,
    outcomes: Seq<MethodResult<Seq<u8>>>,
    i: int,
) -> bool {
    let left = left_after_actions(outcomes.take(i), n);
    left >= 3 && invokes(
        stores[i],
        items[i],
        parameter_of(parameters[i]),
        (left - 3) as nat,
        outcomes[i],
        stores[i + 1],
    )
}

/// Whether the methods of a list came to these outcomes, each in the store as the one before
/// left it.
pub open spec fn invokes_each<S: ObjectStore>(
    items: Seq<MethodDescriptorV>,
    parameters: Seq<DataV>,
    n: nat,
    stores: Seq<S>,
    outcomes: Seq<MethodResult<Seq<u8>>>,
) -> bool {
    &&& stores.len() == outcomes.len() + 1
    &&& outcomes.len() <= items.len()
    &&& forall|i: int|
        0 <= i < outcomes.len() ==> #[trigger] invoked_at(
            items,
            parameters,
            n,
            stores,
            outcomes,
            i,
        )
}

/// One entry of a list of outcomes: the code, and whether a value follows it.
pub open spec fn action_bytes(outcome: MethodResult<Seq<u8>>) -> Seq<u8> {
    match outcome {
        Ok(Some(v)) => seq![ActionResult::Success.as_u8(), 1u8, 0u8] + v,
        Ok(None) => seq![ActionResult::Success.as_u8(), 0u8],
        Err(e) => seq![e.as_u8(), 0u8],
    }
}

/// The entries of a list of outcomes.
pub open spec fn actions_bytes(outcomes: Seq<MethodResult<Seq<u8>>>) -> Seq<u8>
    decreases outcomes.len(),
{
    if outcomes.len() == 0 {
        Seq::empty()
    } else {
        actions_bytes(outcomes.drop_last()) + action_bytes(outcomes.last())
    }
}

/// One more method of a list.
proof fn lemma_invokes_one_more<S: ObjectStore>(
    items: Seq<MethodDescriptorV>,
    parameters: Seq<DataV>,
    n: nat,
    stores: Seq<S>,
    outcomes: Seq<MethodResult<Seq<u8>>>,
    outcome: MethodResult<Seq<u8>>,
    after: S,
)
    requires
        invokes_each(items, parameters, n, stores, outcomes),
        outcomes.len() < items.len(),
        left_after_actions(outcomes, n) >= 3,
        invokes(
            stores.last(),
            items[outcomes.len() as int],
            parameter_of(parameters[outcomes.len() as int]),
            (left_after_actions(outcomes, n) - 3) as nat,
            outcome,
            after,
        ),
    ensures
        invokes_each(items, parameters, n, stores.push(after), outcomes.push(outcome)),
        actions_bytes(outcomes.push(outcome)) == actions_bytes(outcomes) + action_bytes(outcome),
{
    let more = outcomes.push(outcome);
    let held = stores.push(after);
    assert(more.drop_last() =~= outcomes);
    assert forall|j: int| 0 <= j < more.len() implies #[trigger] invoked_at(
        items,
        parameters,
        n,
        held,
        more,
        j,
    ) by {
        assert(more.take(j) =~= outcomes.take(j));
        if j < outcomes.len() {
            assert(invoked_at(items, parameters, n, stores, outcomes, j));
        } else {
            assert(outcomes.take(j) =~= outcomes);
        }
    }
}

impl<P: CryptoProvider> ServerV<P> {
    /// What answering an invocation comes to, given what the method returned: one APDU where
    /// it fits what the client receives, and blocks where it does not and they were agreed
    /// to.
    pub open spec fn answers_action(
        self,
        invoke_id: InvokeId,
        outcome: MethodResult<Seq<u8>>,
        x: ExchangeV<P>,
    ) -> bool {
        match outcome {
            Err(e) => self.sends(action_v(invoke_id, e), x),
            Ok(None) => self.sends(action_v(invoke_id, ActionResult::Success), x),
            Ok(Some(value)) => if value.len() + 6 + self.overhead() <= self.client_max {
                match whole(p_data(Cursor::start(value), 0)) {
                    Err(e) => x.next == self && x.fails(e),
                    Ok(d) => self.sends(
                        ApduV::ActionResponse(
                            ActionResponseV::Normal {
                                invoke_id,
                                response: ActionResponseWithOptionalDataV {
                                    result: ActionResult::Success,
                                    return_parameters: Some(GetDataResultV::Data(d)),
                                },
                            },
                        ),
                        x,
                    ),
                }
            } else if !self.agreed(Conformance::BLOCK_TRANSFER_WITH_ACTION()) {
                self.idle().sends(action_v(invoke_id, ActionResult::DataBlockUnavailable), x)
            } else {
                self.begins_blocks(invoke_id, Outbound::Action, value, x)
            },
        }
    }

    /// What invoking one method comes to.
    pub open spec fn acts_once<S: ObjectStore>(
        self,
        store: S,
        invoke_id: InvokeId,
        d: MethodDescriptorV,
        parameters: Option<DataV>,
        x: ExchangeV<P>,
        after: S,
    ) -> bool {
        exists|outcome: MethodResult<Seq<u8>>| #[trigger]
            invokes(store, d, parameters, x.n, outcome, after) && self.answers_action(
                invoke_id,
                outcome,
                x,
            )
    }

    /// What invoking several methods comes to. The outcomes are gathered in so many bytes;
    /// where those run out, no more are invoked and there is no reply.
    pub open spec fn acts_each<S: ObjectStore>(
        self,
        store: S,
        invoke_id: InvokeId,
        items: Seq<MethodDescriptorV>,
        parameters: Seq<DataV>,
        x: ExchangeV<P>,
        after: S,
    ) -> bool {
        exists|stores: Seq<S>, outcomes: Seq<MethodResult<Seq<u8>>>|
            {
                &&& #[trigger] invokes_each(items, parameters, x.n, stores, outcomes)
                &&& stores[0] == store
                &&& stores.last() == after
                &&& if outcomes.len() == items.len() {
                    self.sends_plain(
                        seq![0xC7u8, 0x03, invoke_id.0] + enc_length(outcomes.len())
                            + actions_bytes(outcomes),
                        x,
                    )
                } else {
                    &&& left_after_actions(outcomes, x.n) < 3
                    &&& x.next == self
                    &&& x.fails(no_room_left(x.n))
                }
            }
    }

    /// What asking for the next block of what a method returned comes to.
    pub open spec fn acts_next(self, invoke_id: InvokeId, acked: u32, x: ExchangeV<P>) -> bool {
        match self.transfer {
            TransferV::Sending { invoke_id: id, service: Outbound::Action, block, .. } =>
            if invoke_id != id || acked != block {
                self.idle().sends(action_v(invoke_id, ActionResult::DataBlockUnavailable), x)
            } else {
                self.sends_block(x)
            },
            _ => self.sends(action_v(invoke_id, ActionResult::NoLongActionInProgress), x),
        }
    }

    /// What the end of a parameter comes to that came in blocks.
    pub open spec fn ends_action<S: ObjectStore>(
        self,
        store: S,
        invoke_id: InvokeId,
        d: MethodDescriptorV,
        value: Seq<u8>,
        x: ExchangeV<P>,
        after: S,
    ) -> bool {
        match whole(p_data(Cursor::start(value), 0)) {
            Err(e) => after == store && x.next == self && x.fails(e),
            Ok(v) => self.acts_once(store, invoke_id, d, Some(v), x, after),
        }
    }

    /// What a block of a parameter comes to. Blocks have to arrive in order, under the
    /// invocation that the first one began, and to fit in what is kept of them.
    pub open spec fn takes_action<S: ObjectStore>(
        self,
        store: S,
        invoke_id: InvokeId,
        block: DataBlockSAV,
        x: ExchangeV<P>,
        after: S,
    ) -> bool {
        match self.transfer {
            TransferV::ReceivingAction { invoke_id: id, descriptor, value, block: last } => {
                let so_far = value + block.raw_data;
                if invoke_id != id || block.block_number != next_number(last) {
                    after == store && self.idle().sends(
                        action_v(invoke_id, ActionResult::DataBlockUnavailable),
                        x,
                    )
                } else if so_far.len() > x.n {
                    after == store && self.idle().sends(
                        action_v(invoke_id, ActionResult::LongActionAborted),
                        x,
                    )
                } else if block.last_block {
                    self.idle().ends_action(store, invoke_id, descriptor, so_far, x, after)
                } else {
                    after == store && ServerV {
                        transfer: TransferV::ReceivingAction {
                            invoke_id,
                            descriptor,
                            value: so_far,
                            block: block.block_number,
                        },
                        ..self
                    }.sends(
                        ApduV::ActionResponse(
                            ActionResponseV::NextPblock {
                                invoke_id,
                                block_number: block.block_number,
                            },
                        ),
                        x,
                    )
                }
            },
            _ => after == store && self.sends(
                action_v(invoke_id, ActionResult::NoLongActionInProgress),
                x,
            ),
        }
    }

    /// The server once an invocation has begun whose parameter comes in blocks.
    pub open spec fn receiving_action(
        self,
        invoke_id: InvokeId,
        descriptor: MethodDescriptorV,
    ) -> ServerV<P> {
        ServerV {
            transfer: TransferV::ReceivingAction {
                invoke_id,
                descriptor,
                value: Seq::empty(),
                block: 0,
            },
            ..self
        }
    }

    /// What an ACTION request comes to in an open association.
    pub open spec fn acts_open<S: ObjectStore>(
        self,
        store: S,
        req: ActionRequestV,
        x: ExchangeV<P>,
        after: S,
    ) -> bool {
        match req {
            ActionRequestV::Normal { invoke_id, descriptor, parameters } => self.idle().acts_once(
                store,
                invoke_id,
                descriptor,
                parameters,
                x,
                after,
            ),
            ActionRequestV::NextPblock { invoke_id, block_number } => after == store
                && self.acts_next(invoke_id, block_number, x),
            ActionRequestV::WithFirstPblock { invoke_id, descriptor, block } => if !self.agreed(
                Conformance::BLOCK_TRANSFER_WITH_ACTION(),
            ) {
                after == store && self.idle().sends(
                    action_v(invoke_id, ActionResult::DataBlockUnavailable),
                    x,
                )
            } else {
                self.receiving_action(invoke_id, descriptor).takes_action(
                    store,
                    invoke_id,
                    block,
                    x,
                    after,
                )
            },
            ActionRequestV::WithPblock { invoke_id, block } => self.takes_action(
                store,
                invoke_id,
                block,
                x,
                after,
            ),
            ActionRequestV::WithList { invoke_id, descriptors, parameters } => if !self.agreed(
                Conformance::MULTIPLE_REFERENCES(),
            ) {
                after == store && self.not_supported(x)
            } else if descriptors.len() != parameters.len() || descriptors.len()
                > MAX_ACCESS_ITEMS {
                after == store && self.not_possible(x)
            } else {
                self.idle().acts_each(store, invoke_id, descriptors, parameters, x, after)
            },
            ActionRequestV::WithListAndFirstPblock { .. } => after == store && self.not_supported(
                x,
            ),
        }
    }

    /// What an ACTION request comes to. The one method that is legal before the association
    /// is open is the reply to the challenge.
    pub open spec fn acts<S: ObjectStore>(
        self,
        store: S,
        req: ActionRequestV,
        x: ExchangeV<P>,
        after: S,
    ) -> bool {
        if self.state is AwaitingHlsReply {
            after == store && match req {
                ActionRequestV::Normal { invoke_id, descriptor, parameters } => self.proves(
                    invoke_id,
                    descriptor,
                    parameters,
                    x,
                ),
                _ => self.not_possible(x),
            }
        } else if !(self.state is Associated) {
            after == store && self.not_possible(x)
        } else if !self.agreed(Conformance::ACTION()) {
            after == store && self.not_supported(x)
        } else {
            self.acts_open(store, req, x, after)
        }
    }
}

/// The bytes of an outcome.
pub open spec fn method_view(r: MethodResult<Vec<u8>>) -> MethodResult<Seq<u8>> {
    match r {
        Ok(Some(v)) => Ok(Some(v@)),
        Ok(None) => Ok(None),
        Err(e) => Err(e),
    }
}

/// What a client is told of an invocation, given the rights, what the method wrote and what
/// the store answered.
pub fn method_answer(
    rights: MethodAccess,
    written: Vec<u8>,
    r: core::result::Result<bool, ActionResult>,
) -> (outcome: MethodResult<Vec<u8>>)
    ensures
        method_view(outcome) == method_outcome(rights, written@, r),
{
    if !rights.can_invoke() {
        return Err(ActionResult::ReadWriteDenied);
    }
    match r {
        Ok(true) => if written.len() == 0 {
            // The store said it returned something and wrote nothing. That is its bug,
            // and the honest answer is a refusal this method can name.
            Err(ActionResult::OtherReason)
        } else {
            Ok(Some(written))
        },
        Ok(false) => Ok(None),
        Err(e) => Err(e),
    }
}

/// What a store is told of an invocation.
fn own_answer(rights: MethodAccess, r: &core::result::Result<bool, ActionResult>) -> (e:
    ActionResult)
    ensures
        e == answered_action(rights, *r),
{
    if !rights.can_invoke() {
        return ActionResult::ReadWriteDenied;
    }
    match r {
        Ok(_) => ActionResult::Success,
        Err(e) => *e,
    }
}

/// Check the rights, invoke, and record.
pub(super) fn run_method<S: ObjectStore>(
    store: &mut S,
    d: &MethodDescriptor,
    parameters: Option<Data<'_>>,
    room: usize,
) -> (outcome: MethodResult<Vec<u8>>)
    ensures
        invokes(
            *old(store),
            d@,
            opt_view(parameters),
            room as nat,
            method_view(outcome),
            *final(store),
        ),
        outcome matches Ok(Some(v)) ==> v@.len() <= room,
{
    proof {
        reveal(invokes);
        lemma_name_of(d.instance_id);
    }
    let rights = store.method_access(d.class_id, d.instance_id, d.method_id);
    assert(allows(*store, d@, rights));
    let (written, r) = if rights.can_invoke() {
        let (written, r, _) = ask_to_run(store, d, parameters, room);
        assert(runs(
            *old(store),
            d@,
            opt_view(parameters),
            room as nat,
            written@,
            r,
            *store,
        ));
        (written, r)
    } else {
        (Vec::new(), Ok(false))
    };
    let ghost held = *store;
    assert(calls(
        *old(store),
        d@,
        opt_view(parameters),
        rights,
        room as nat,
        written@,
        r,
        held,
    ));
    tell(
        store,
        AuditEvent::MethodInvoked {
            class_id: d.class_id,
            logical_name: d.instance_id,
            method_id: d.method_id,
            outcome: own_answer(rights, &r),
        },
    );
    method_answer(rights, written, r)
}

impl<S: ObjectStore, P: CryptoProvider, const N: usize> Server<S, P, N> {
    /// Turn a method's outcome into a reply, segmenting a long return value.
    fn answer_method(
        &mut self,
        invoke_id: InvokeId,
        outcome: MethodResult<Vec<u8>>,
        out: &mut [u8],
    ) -> (r: Result<usize>)
        ensures
            old(self)@.answers_action(
                invoke_id,
                method_view(outcome),
                ExchangeV {
                    n: N as nat,
                    before: old(out)@,
                    after: final(out)@,
                    next: final(self)@,
                    r,
                },
            ),
            final(self).objects() == old(self).objects(),
    {
        let value = match outcome {
            Ok(Some(v)) => v,
            Ok(None) => {
                return self.action_error(invoke_id, ActionResult::Success, out);
            },
            Err(e) => {
                return self.action_error(invoke_id, e, out);
            },
        };
        // A return value large enough to need segmenting is rare but real — an image
        // block read back, a certificate exported — and a method that silently could not
        // answer would be worse than one that says so.
        let overhead: usize = self.protection_overhead();
        if value.len().saturating_add(6 + overhead) <= self.client_max_pdu_size as usize {
            let data = Data::from_bytes_in(value.as_slice())?;
            let response = ActionResponse::Normal {
                invoke_id,
                response: ActionResponseWithOptionalData {
                    result: ActionResult::Success,
                    return_parameters: Some(GetDataResult::Data(data)),
                },
            };
            let apdu = Apdu::ActionResponse(response);
            assert(apdu@ =~= ApduV::ActionResponse(
                ActionResponseV::Normal {
                    invoke_id,
                    response: ActionResponseWithOptionalDataV {
                        result: ActionResult::Success,
                        return_parameters: Some(GetDataResultV::Data(data@)),
                    },
                },
            ));
            return self.send(&apdu, out);
        }
        if !self.negotiated.contains(Conformance::BLOCK_TRANSFER_WITH_ACTION()) {
            // The value exists and the client may have it; there is simply no way to
            // deliver it under what was negotiated.
            self.abandon();
            return self.action_error(invoke_id, ActionResult::DataBlockUnavailable, out);
        }
        self.begin_blocks(invoke_id, Outbound::Action, value, out)
    }

    /// Invoke a method, then deliver whatever it returned — in one APDU or in blocks.
    fn invoke_and_answer(
        &mut self,
        invoke_id: InvokeId,
        descriptor: MethodDescriptor,
        parameters: Option<Data<'_>>,
        out: &mut [u8],
    ) -> (r: Result<usize>)
        ensures
            old(self)@.acts_once(
                old(self).objects(),
                invoke_id,
                descriptor@,
                opt_view(parameters),
                ExchangeV {
                    n: N as nat,
                    before: old(out)@,
                    after: final(out)@,
                    next: final(self)@,
                    r,
                },
                final(self).objects(),
            ),
    {
        let outcome = run_method(&mut self.store, &descriptor, parameters, N);
        assert(self@ == old(self)@);
        let ghost after = self.objects();
        let ghost came = method_view(outcome);
        let r = self.answer_method(invoke_id, outcome, out);
        assert(invokes(
            old(self).objects(),
            descriptor@,
            opt_view(parameters),
            N as nat,
            came,
            after,
        ));
        r
    }

    /// The client acknowledges a block of a long ACTION result and asks for the next.
    fn handle_action_next(&mut self, invoke_id: InvokeId, acked: u32, out: &mut [u8]) -> (r: Result<
        usize,
    >)
        ensures
            old(self)@.acts_next(
                invoke_id,
                acked,
                ExchangeV {
                    n: N as nat,
                    before: old(out)@,
                    after: final(out)@,
                    next: final(self)@,
                    r,
                },
            ),
            final(self).objects() == old(self).objects(),
    {
        match &self.transfer {
            Transfer::Sending { invoke_id: id, service: Outbound::Action, block, .. } => {
                if invoke_id != *id || acked != *block {
                    self.abandon();
                    return self.action_error(invoke_id, ActionResult::DataBlockUnavailable, out);
                }
            },
            _ => {
                return self.action_error(invoke_id, ActionResult::NoLongActionInProgress, out);
            },
        }
        self.send_next_block(out)
    }

    /// A further block of a long ACTION parameter.
    fn continue_blocked_action(
        &mut self,
        invoke_id: InvokeId,
        block: &DataBlockSA<'_>,
        out: &mut [u8],
    ) -> (r: Result<usize>)
        ensures
            old(self)@.takes_action(
                old(self).objects(),
                invoke_id,
                block@,
                ExchangeV {
                    n: N as nat,
                    before: old(out)@,
                    after: final(out)@,
                    next: final(self)@,
                    r,
                },
                final(self).objects(),
            ),
    {
        if !matches!(self.transfer, Transfer::ReceivingAction { .. }) {
            return self.action_error(invoke_id, ActionResult::NoLongActionInProgress, out);
        }
        let mut transfer = Transfer::Idle;
        core::mem::swap(&mut self.transfer, &mut transfer);
        assert(transfer@ == old(self)@.transfer);
        assert(self@ == old(self)@.idle());
        match transfer {
            Transfer::ReceivingAction { invoke_id: id, descriptor, value, block: last } => {
                if invoke_id != id || block.block_number != last.saturating_add(1) {
                    return self.action_error(invoke_id, ActionResult::DataBlockUnavailable, out);
                }
                let mut so_far = value;
                let ghost before = so_far@;
                if so_far.len() > N || block.raw_data.len() > N - so_far.len() {
                    return self.action_error(invoke_id, ActionResult::LongActionAborted, out);
                }
                extend(&mut so_far, block.raw_data);
                assert(so_far@ == before + block@.raw_data);
                if block.last_block {
                    let parameters = Data::from_bytes_in(so_far.as_slice())?;
                    return self.invoke_and_answer(invoke_id, descriptor, Some(parameters), out);
                }
                self.transfer =
                Transfer::ReceivingAction {
                    invoke_id,
                    descriptor,
                    value: so_far,
                    block: block.block_number,
                };
                // The acknowledgement of a parameter block is `action-response-next-pblock`
                // carrying the number just received; there is no separate ack form.
                let response = ActionResponse::NextPblock {
                    invoke_id,
                    block_number: block.block_number,
                };
                self.send(&Apdu::ActionResponse(response), out)
            },
            _ => Err(Error::new(ErrorKind::UnexpectedMessage, 0)),
        }
    }

    /// Invoke several methods in one exchange, one result each.
    ///
    /// Like the batched read and the batched write, the point is per-item isolation: a
    /// method that refuses occupies its own slot and the others still run. That matters
    /// more here than for a read — a batch that opened a breaker and then failed would
    /// otherwise report only the failure.
    #[verifier::loop_isolation(false)]
    #[verifier::rlimit(40)]
    fn act_each(
        &mut self,
        invoke_id: InvokeId,
        descriptors: &[MethodDescriptor],
        parameters: &[Data<'_>],
        out: &mut [u8],
    ) -> (r: Result<usize>)
        requires
            descriptors@.len() == parameters@.len() <= MAX_ACCESS_ITEMS,
        ensures
            old(self)@.acts_each(
                old(self).objects(),
                invoke_id,
                views(descriptors@),
                views(parameters@),
                ExchangeV {
                    n: N as nat,
                    before: old(out)@,
                    after: final(out)@,
                    next: final(self)@,
                    r,
                },
                final(self).objects(),
            ),
    {
        let mut raw: Vec<u8> = Vec::new();
        let mut i: usize = 0;
        let ghost mut stores: Seq<S> = seq![self.objects()];
        let ghost mut outcomes: Seq<MethodResult<Seq<u8>>> = Seq::empty();
        let ghost items = views(descriptors@);
        let ghost given = views(parameters@);
        assert(raw@ =~= actions_bytes(outcomes));
        while i < descriptors.len()
            invariant
                i <= descriptors@.len(),
                self@ == old(self)@,
                outcomes.len() == i,
                invokes_each(items, given, N as nat, stores, outcomes),
                stores[0] == old(self).objects(),
                stores.last() == self.objects(),
                raw@ == actions_bytes(outcomes),
                raw@.len() <= N,
            decreases descriptors@.len() - i,
        {
            // The result byte, the optional-usage flag and the choice byte of a value come
            // first, so there has to be room for them.
            if N - raw.len() < 3 {
                proof {
                    let x = ExchangeV {
                        n: N as nat,
                        before: old(out)@,
                        after: out@,
                        next: self@,
                        r: Err::<usize, Error>(no_room_left(N as nat)),
                    };
                    assert(invokes_each(items, given, x.n, stores, outcomes));
                    assert(old(self)@.acts_each(
                        old(self).objects(),
                        invoke_id,
                        items,
                        given,
                        x,
                        self.objects(),
                    ));
                }
                return Err(Error::new(ErrorKind::BufferTooSmall { needed: 1 }, N));
            }
            let descriptor = descriptors[i];
            let parameter = match parameters[i] {
                Data::Null => None,
                v => Some(v),
            };
            assert(items[i as int] == descriptor@);
            assert(parameter_of(given[i as int]) == opt_view(parameter));
            let outcome = run_method(
                &mut self.store,
                &descriptor,
                parameter,
                N - raw.len() - 3,
            );
            proof {
                lemma_invokes_one_more(
                    items,
                    given,
                    N as nat,
                    stores,
                    outcomes,
                    method_view(outcome),
                    self.objects(),
                );
                stores = stores.push(self.objects());
                outcomes = outcomes.push(method_view(outcome));
            }
            match outcome {
                Ok(Some(v)) => {
                    raw.push(ActionResult::Success.as_u8());
                    raw.push(1);
                    raw.push(0);
                    extend(&mut raw, v.as_slice());
                    assert(raw@ =~= actions_bytes(outcomes));
                },
                Ok(None) => {
                    raw.push(ActionResult::Success.as_u8());
                    raw.push(0);
                    assert(raw@ =~= actions_bytes(outcomes));
                },
                Err(e) => {
                    raw.push(e.as_u8());
                    raw.push(0);
                    assert(raw@ =~= actions_bytes(outcomes));
                },
            }
            i += 1;
        }
        let mut plain: Vec<u8> = Vec::new();
        plain.push(0xC7);
        plain.push(0x03);
        plain.push(invoke_id.0);
        plain.write_length(descriptors.len())?;
        extend(&mut plain, raw.as_slice());
        assert(plain@ =~= seq![0xC7u8, 0x03, invoke_id.0] + enc_length(outcomes.len())
            + actions_bytes(outcomes));
        let r = self.send_plain(plain.as_slice(), out);
        assert(invokes_each(items, given, N as nat, stores, outcomes));
        r
    }

    fn act_open(&mut self, req: ActionRequest<'_>, out: &mut [u8]) -> (r: Result<usize>)
        ensures
            old(self)@.acts_open(
                old(self).objects(),
                req@,
                ExchangeV {
                    n: N as nat,
                    before: old(out)@,
                    after: final(out)@,
                    next: final(self)@,
                    r,
                },
                final(self).objects(),
            ),
    {
        match req {
            ActionRequest::Normal { invoke_id, descriptor, parameters } => {
                self.abandon();
                self.invoke_and_answer(invoke_id, descriptor, parameters, out)
            },
            ActionRequest::NextPblock { invoke_id, block_number } => self.handle_action_next(
                invoke_id,
                block_number,
                out,
            ),
            ActionRequest::WithFirstPblock { invoke_id, descriptor, block } => {
                self.abandon();
                if !self.negotiated.contains(Conformance::BLOCK_TRANSFER_WITH_ACTION()) {
                    return self.action_error(invoke_id, ActionResult::DataBlockUnavailable, out);
                }
                self.transfer =
                Transfer::ReceivingAction { invoke_id, descriptor, value: Vec::new(), block: 0 };
                assert(self@ =~= old(self)@.receiving_action(invoke_id, descriptor@));
                self.continue_blocked_action(invoke_id, &block, out)
            },
            ActionRequest::WithPblock { invoke_id, block } => self.continue_blocked_action(
                invoke_id,
                &block,
                out,
            ),
            ActionRequest::WithList { invoke_id, descriptors, parameters } => {
                if !self.negotiated.contains(Conformance::MULTIPLE_REFERENCES()) {
                    return self.not_supported(out);
                }
                // One parameter entry per method, `null-data` for a method that takes none —
                // the same positional rule the ACCESS service uses, and for the same reason.

                if descriptors.len() != parameters.len() || descriptors.len() > MAX_ACCESS_ITEMS {
                    return self.not_possible(out);
                }
                self.abandon();
                self.act_each(invoke_id, descriptors.as_slice(), parameters.as_slice(), out)
            },
            // A batch of methods whose *parameters* are themselves too large for one
            // APDU. Nothing in the field does this, and it would need the method list
            // held across blocks alongside a parameter list whose division between the
            // methods is not stated anywhere. Saying so beats invoking the first method of
            // a batch and guessing at the rest.
            ActionRequest::WithListAndFirstPblock { .. } => self.not_supported(out),
        }
    }

    /// Handle an ACTION request.
    pub(super) fn handle_action(&mut self, req: ActionRequest<'_>, out: &mut [u8]) -> (r: Result<
        usize,
    >)
        ensures
            old(self)@.acts(
                old(self).objects(),
                req@,
                ExchangeV {
                    n: N as nat,
                    before: old(out)@,
                    after: final(out)@,
                    next: final(self)@,
                    r,
                },
                final(self).objects(),
            ),
    {
        // The one method that is legal before the association is open: the reply to the
        // server's high-level-security challenge.
        if self.state == ServerState::AwaitingHlsReply {
            return match req {
                ActionRequest::Normal { invoke_id, descriptor, parameters } =>
                self.handle_hls_reply(invoke_id, descriptor, parameters, out),
                _ => self.not_possible(out),
            };
        }
        if self.state != ServerState::Associated {
            return self.not_possible(out);
        }
        if !self.negotiated.contains(Conformance::ACTION()) {
            return self.not_supported(out);
        }
        self.act_open(req, out)
    }
}

} // verus!
