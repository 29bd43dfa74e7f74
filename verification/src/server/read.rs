//! Reading attributes by logical name.

use vstd::prelude::*;

use super::model::Outbound;
use super::store::{ask_value, tell, AuditEvent, ObjectStore, StoreResult};
use super::{Server, ServerState};
use crate::axdr::data::Data;
use crate::codec::{extend, Error, ErrorKind, Result, Writer};
use crate::cosem::access::AttributeAccess;
use crate::security::CryptoProvider;
use crate::xdlms::apdu::Apdu;
use crate::xdlms::ids::InvokeId;
use crate::xdlms::initiate::Conformance;
use crate::xdlms::result::DataAccessResult;
use crate::xdlms::service::{
    AttributeDescriptor, AttributeDescriptorWithSelection, GetDataResult, GetRequest, GetResponse,
    SelectiveAccess,
};
#[allow(unused_imports)]
use super::model::{get_error_v, ExchangeV, ServerV, TransferV};
#[allow(unused_imports)]
use super::store::{grants, noted, yields};
#[allow(unused_imports)]
use super::write::no_room_left;
#[allow(unused_imports)]
use super::Transfer;
#[allow(unused_imports)]
use crate::axdr::data::p_data;
#[allow(unused_imports)]
use crate::codec::{enc_length, length_fits, whole, Cursor};
#[allow(unused_imports)]
use crate::obis::{lemma_name_of, name_of};
#[allow(unused_imports)]
use crate::xdlms::apdu::ApduV;
#[allow(unused_imports)]
use crate::xdlms::list::{opt_view, views};
#[allow(unused_imports)]
use crate::xdlms::service::{
    AttributeDescriptorV, AttributeDescriptorWithSelectionV, GetDataResultV, GetRequestV,
    GetResponseV, SelectiveAccessV,
};

verus! {

/// What a client is told of a read: the rights come first, and a store that reports success
/// and writes nothing has not read anything.
pub open spec fn read_outcome(
    rights: AttributeAccess,
    written: Seq<u8>,
    r: StoreResult<()>,
) -> StoreResult<Seq<u8>> {
    if !rights.can_read() {
        Err(DataAccessResult::ReadWriteDenied)
    } else {
        match r {
            Ok(_) => if written.len() == 0 {
                Err(DataAccessResult::OtherReason)
            } else {
                Ok(written)
            },
            Err(e) => Err(e),
        }
    }
}

/// The code for an outcome.
pub open spec fn told<T>(outcome: StoreResult<T>) -> DataAccessResult {
    match outcome {
        Ok(_) => DataAccessResult::Success,
        Err(e) => e,
    }
}

/// What a store has answered by itself, whatever it wrote: the rights come first.
pub open spec fn answered(rights: AttributeAccess, r: StoreResult<()>) -> DataAccessResult {
    if rights.can_read() {
        told(r)
    } else {
        DataAccessResult::ReadWriteDenied
    }
}

/// Whether asking a store for an attribute comes to this, with so much room for the value:
/// it is asked for the rights, and for the value where it grants them and only there.
pub open spec fn asks<S: ObjectStore>(
    store: S,
    d: AttributeDescriptorV,
    access: Option<SelectiveAccessV>,
    room: nat,
    rights: AttributeAccess,
    written: Seq<u8>,
    r: StoreResult<()>,
) -> bool {
    &&& grants(store, d, rights)
    &&& rights.can_read() ==> yields(store, d, access, room, written, r)
}

/// The record of a read.
pub open spec fn read_noted<S: ObjectStore>(
    before: S,
    d: AttributeDescriptorV,
    outcome: DataAccessResult,
    after: S,
) -> bool {
    noted(
        before,
        AuditEvent::AttributeRead {
            class_id: d.class_id,
            logical_name: name_of(d.instance_id),
            attribute_id: d.attribute_id,
            outcome,
        },
        after,
    )
}

/// Whether reading one attribute of several comes to this, with so much room for the value,
/// and leaves the store like this: it is told what the client is told.
#[verifier::opaque]
pub open spec fn reads<S: ObjectStore>(
    before: S,
    d: AttributeDescriptorV,
    access: Option<SelectiveAccessV>,
    room: nat,
    outcome: StoreResult<Seq<u8>>,
    after: S,
) -> bool {
    exists|rights: AttributeAccess, written: Seq<u8>, r: StoreResult<()>|
        {
            &&& #[trigger] asks(before, d, access, room, rights, written, r)
            &&& outcome == read_outcome(rights, written, r)
            &&& read_noted(before, d, told(outcome), after)
        }
}

/// Whether reading an attribute by short name comes to this: the store is told what it
/// answered.
pub open spec fn reads_by_name<S: ObjectStore>(
    before: S,
    d: AttributeDescriptorV,
    access: Option<SelectiveAccessV>,
    room: nat,
    outcome: StoreResult<Seq<u8>>,
    after: S,
) -> bool {
    exists|rights: AttributeAccess, written: Seq<u8>, r: StoreResult<()>|
        {
            &&& #[trigger] asks(before, d, access, room, rights, written, r)
            &&& outcome == read_outcome(rights, written, r)
            &&& read_noted(before, d, answered(rights, r), after)
        }
}

/// Whether reading an attribute by itself comes to this: the store is told what it answered,
/// and then, where that was a success with no value behind it, that the client is told
/// otherwise.
pub open spec fn reads_alone<S: ObjectStore>(
    before: S,
    d: AttributeDescriptorV,
    access: Option<SelectiveAccessV>,
    room: nat,
    outcome: StoreResult<Seq<u8>>,
    after: S,
) -> bool {
    exists|rights: AttributeAccess, written: Seq<u8>, r: StoreResult<()>, held: S|
        {
            &&& #[trigger] asks(before, d, access, room, rights, written, r)
            &&& outcome == read_outcome(rights, written, r)
            &&& #[trigger] read_noted(before, d, answered(rights, r), held)
            &&& if told(outcome) == answered(rights, r) {
                after == held
            } else {
                read_noted(held, d, told(outcome), after)
            }
        }
}

/// One entry of a list of results: a choice, then the value or the reason there is none.
pub open spec fn result_bytes(outcome: StoreResult<Seq<u8>>) -> Seq<u8> {
    match outcome {
        Ok(v) => seq![0u8] + v,
        Err(e) => seq![1u8, e.as_u8()],
    }
}

/// The entries of a list of results.
pub open spec fn results_bytes(outcomes: Seq<StoreResult<Seq<u8>>>) -> Seq<u8>
    decreases outcomes.len(),
{
    if outcomes.len() == 0 {
        Seq::empty()
    } else {
        results_bytes(outcomes.drop_last()) + result_bytes(outcomes.last())
    }
}

/// The room that is left after some results.
pub open spec fn left_after(outcomes: Seq<StoreResult<Seq<u8>>>, n: nat) -> int {
    n - results_bytes(outcomes).len()
}

/// Whether an attribute of a list came to its outcome. A result takes two bytes at least, and
/// the value has what is left behind its choice.
pub open spec fn read_at<S: ObjectStore>(
    items: Seq<AttributeDescriptorWithSelectionV>,
    n: nat,
    stores: Seq<S>,
    outcomes: Seq<StoreResult<Seq<u8>>>,
    i: int,
) -> bool {
    let left = left_after(outcomes.take(i), n);
    left >= 2 && reads(
        stores[i],
        items[i].descriptor,
        items[i].access,
        (left - 1) as nat,
        outcomes[i],
        stores[i + 1],
    )
}

/// Whether the attributes of a list came to these outcomes, each from the store as the one
/// before left it.
pub open spec fn reads_each<S: ObjectStore>(
    items: Seq<AttributeDescriptorWithSelectionV>,
    n: nat,
    stores: Seq<S>,
    outcomes: Seq<StoreResult<Seq<u8>>>,
) -> bool {
    &&& stores.len() == outcomes.len() + 1
    &&& outcomes.len() <= items.len()
    &&& forall|i: int|
        0 <= i < outcomes.len() ==> #[trigger] read_at(items, n, stores, outcomes, i)
}

/// Whether a store is asked for the value of an attribute, whatever it answers.
pub open spec fn is_asked<S: ObjectStore>(
    store: S,
    d: AttributeDescriptorV,
    access: Option<SelectiveAccessV>,
    room: nat,
) -> bool {
    exists|written: Seq<u8>, r: StoreResult<()>| #[trigger]
        yields(store, d, access, room, written, r)
}

/// Whether there is no room for what an attribute comes to: the store is asked for the
/// rights, and, where it grants them and there is room for the choice alone, for a value that
/// has none.
pub open spec fn has_no_room<S: ObjectStore>(
    store: S,
    d: AttributeDescriptorV,
    access: Option<SelectiveAccessV>,
    left: int,
) -> bool {
    &&& left < 2
    &&& exists|rights: AttributeAccess| #[trigger]
        grants(store, d, rights) && (rights.can_read() && left == 1 ==> is_asked(
            store,
            d,
            access,
            0,
        ))
}

/// One more attribute of a list.
proof fn lemma_reads_one_more<S: ObjectStore>(
    items: Seq<AttributeDescriptorWithSelectionV>,
    n: nat,
    stores: Seq<S>,
    outcomes: Seq<StoreResult<Seq<u8>>>,
    outcome: StoreResult<Seq<u8>>,
    after: S,
)
    requires
        reads_each(items, n, stores, outcomes),
        outcomes.len() < items.len(),
        left_after(outcomes, n) >= 2,
        reads(
            stores.last(),
            items[outcomes.len() as int].descriptor,
            items[outcomes.len() as int].access,
            (left_after(outcomes, n) - 1) as nat,
            outcome,
            after,
        ),
    ensures
        reads_each(items, n, stores.push(after), outcomes.push(outcome)),
        results_bytes(outcomes.push(outcome)) == results_bytes(outcomes) + result_bytes(outcome),
{
    let more = outcomes.push(outcome);
    let held = stores.push(after);
    assert(more.drop_last() =~= outcomes);
    assert forall|j: int| 0 <= j < more.len() implies #[trigger] read_at(
        items,
        n,
        held,
        more,
        j,
    ) by {
        assert(more.take(j) =~= outcomes.take(j));
        if j < outcomes.len() {
            assert(read_at(items, n, stores, outcomes, j));
        } else {
            assert(outcomes.take(j) =~= outcomes);
        }
    }
}

impl<P: CryptoProvider> ServerV<P> {
    /// What answering a read comes to, given what was read: one APDU where it fits what the
    /// client receives, and blocks where it does not and they were agreed to.
    pub open spec fn answers_get(
        self,
        invoke_id: InvokeId,
        outcome: StoreResult<Seq<u8>>,
        x: ExchangeV<P>,
    ) -> bool {
        match outcome {
            Err(e) => self.sends(get_error_v(invoke_id, e), x),
            Ok(value) => if value.len() + 4 + self.overhead() <= self.client_max {
                match whole(p_data(Cursor::start(value), 0)) {
                    Err(e) => x.next == self && x.fails(e),
                    Ok(d) => self.sends(
                        ApduV::GetResponse(
                            GetResponseV::Normal { invoke_id, result: GetDataResultV::Data(d) },
                        ),
                        x,
                    ),
                }
            } else if !self.agreed(Conformance::BLOCK_TRANSFER_WITH_GET_OR_READ()) {
                self.sends(get_error_v(invoke_id, DataAccessResult::DataBlockUnavailable), x)
            } else {
                self.begins_blocks(invoke_id, Outbound::Get, value, x)
            },
        }
    }

    /// What answering a read of several attributes comes to, given what was read.
    pub open spec fn answers_get_list(
        self,
        invoke_id: InvokeId,
        outcomes: Seq<StoreResult<Seq<u8>>>,
        x: ExchangeV<P>,
    ) -> bool {
        let body = enc_length(outcomes.len()) + results_bytes(outcomes);
        if !length_fits(outcomes.len()) {
            x.next == self && x.fails(Error { kind: ErrorKind::InvalidLength, offset: 0 })
        } else if body.len() + 4 + self.overhead() <= self.client_max {
            self.sends_plain(seq![0xC4u8, 0x03, invoke_id.0] + body, x)
        } else if !self.agreed(Conformance::BLOCK_TRANSFER_WITH_GET_OR_READ()) {
            self.sends(get_error_v(invoke_id, DataAccessResult::DataBlockUnavailable), x)
        } else if body.len() > x.n {
            x.next == self && x.fails(
                Error {
                    kind: ErrorKind::BufferTooSmall { needed: body.len() as usize },
                    offset: 0,
                },
            )
        } else {
            self.begins_blocks(invoke_id, Outbound::Get, body, x)
        }
    }

    /// What reading several attributes comes to that may be asked for together. The results
    /// are gathered in so many bytes; where those run out, no more are read and there is no
    /// reply.
    pub open spec fn gets_each<S: ObjectStore>(
        self,
        store: S,
        invoke_id: InvokeId,
        items: Seq<AttributeDescriptorWithSelectionV>,
        x: ExchangeV<P>,
        after: S,
    ) -> bool {
        exists|stores: Seq<S>, outcomes: Seq<StoreResult<Seq<u8>>>|
            {
                &&& #[trigger] reads_each(items, x.n, stores, outcomes)
                &&& stores[0] == store
                &&& stores.last() == after
                &&& if outcomes.len() == items.len() {
                    self.idle().answers_get_list(invoke_id, outcomes, x)
                } else {
                    &&& has_no_room(
                        after,
                        items[outcomes.len() as int].descriptor,
                        items[outcomes.len() as int].access,
                        left_after(outcomes, x.n),
                    )
                    &&& x.next == self.idle()
                    &&& x.fails(no_room_left(x.n))
                }
            }
    }

    /// What reading several attributes comes to.
    pub open spec fn gets_list<S: ObjectStore>(
        self,
        store: S,
        invoke_id: InvokeId,
        items: Seq<AttributeDescriptorWithSelectionV>,
        x: ExchangeV<P>,
        after: S,
    ) -> bool {
        if !self.agreed(Conformance::MULTIPLE_REFERENCES()) {
            after == store && self.not_supported(x)
        } else {
            self.gets_each(store, invoke_id, items, x, after)
        }
    }

    /// What asking for the next block of a read comes to: the block named has to be the last
    /// one that went out, under the same invocation.
    pub open spec fn gets_next(self, invoke_id: InvokeId, acked: u32, x: ExchangeV<P>) -> bool {
        match self.transfer {
            TransferV::Sending { invoke_id: id, service: Outbound::Get, block, .. } => if invoke_id
                != id || acked != block {
                self.idle().sends(
                    get_error_v(invoke_id, DataAccessResult::DataBlockNumberInvalid),
                    x,
                )
            } else {
                self.sends_block(x)
            },
            _ => self.sends(get_error_v(invoke_id, DataAccessResult::NoLongGetInProgress), x),
        }
    }

    /// What reading one attribute comes to.
    pub open spec fn gets_one<S: ObjectStore>(
        self,
        store: S,
        invoke_id: InvokeId,
        d: AttributeDescriptorV,
        access: Option<SelectiveAccessV>,
        x: ExchangeV<P>,
        after: S,
    ) -> bool {
        exists|outcome: StoreResult<Seq<u8>>| #[trigger]
            reads_alone(store, d, access, x.n, outcome, after) && self.idle().answers_get(
                invoke_id,
                outcome,
                x,
            )
    }

    /// What a GET request comes to.
    pub open spec fn gets<S: ObjectStore>(
        self,
        store: S,
        req: GetRequestV,
        x: ExchangeV<P>,
        after: S,
    ) -> bool {
        if !(self.state is Associated) {
            after == store && self.not_possible(x)
        } else if !self.agreed(Conformance::GET()) {
            after == store && self.not_supported(x)
        } else {
            match req {
                GetRequestV::Normal { invoke_id, descriptor, access } => self.gets_one(
                    store,
                    invoke_id,
                    descriptor,
                    access,
                    x,
                    after,
                ),
                GetRequestV::Next { invoke_id, block_number } => after == store
                    && self.gets_next(invoke_id, block_number, x),
                GetRequestV::WithList { invoke_id, list } => self.gets_list(
                    store,
                    invoke_id,
                    list,
                    x,
                    after,
                ),
            }
        }
    }
}

/// The bytes of an outcome.
pub open spec fn outcome_view(r: StoreResult<Vec<u8>>) -> StoreResult<Seq<u8>> {
    match r {
        Ok(v) => Ok(v@),
        Err(e) => Err(e),
    }
}

/// What a client is told of a read, given the rights, what the store wrote and what it
/// answered.
pub fn read_answer(rights: AttributeAccess, written: Vec<u8>, r: StoreResult<()>) -> (outcome:
    StoreResult<Vec<u8>>)
    ensures
        outcome_view(outcome) == read_outcome(rights, written@, r),
{
    if !rights.can_read() {
        return Err(DataAccessResult::ReadWriteDenied);
    }
    match r {
        // Success with no value written: the store's contract, broken. A response with a
        // choice byte and nothing behind it is malformed, which is worse than a refusal
        // because the client cannot even say which read failed.
        Ok(_) => if written.len() == 0 {
            Err(DataAccessResult::OtherReason)
        } else {
            Ok(written)
        },
        Err(e) => Err(e),
    }
}

/// The code for an outcome.
pub(super) fn code_of(outcome: &StoreResult<Vec<u8>>) -> (e: DataAccessResult)
    ensures
        e == told(outcome_view(*outcome)),
{
    match outcome {
        Ok(_) => DataAccessResult::Success,
        Err(e) => *e,
    }
}

/// Ask a store for an attribute, enforcing access rights.
pub(super) fn ask<S: ObjectStore>(
    store: &S,
    d: &AttributeDescriptor,
    access: Option<SelectiveAccess<'_>>,
    room: usize,
) -> (q: (AttributeAccess, Vec<u8>, StoreResult<()>))
    ensures
        asks(*store, d@, opt_view(access), room as nat, q.0, q.1@, q.2),
        q.1@.len() <= room,
{
    proof {
        lemma_name_of(d.instance_id);
    }
    let rights = store.attribute_access(d.class_id, d.instance_id, d.attribute_id);
    assert(grants(*store, d@, rights));
    if rights.can_read() {
        let (written, r) = ask_value(store, d, access, room);
        assert(yields(*store, d@, opt_view(access), room as nat, written@, r));
        (rights, written, r)
    } else {
        (rights, Vec::new(), Ok(()))
    }
}

/// Record a read.
pub(super) fn note_read<S: ObjectStore>(store: &mut S, d: &AttributeDescriptor, outcome: DataAccessResult)
    ensures
        read_noted(*old(store), d@, outcome, *final(store)),
{
    proof {
        lemma_name_of(d.instance_id);
    }
    tell(
        store,
        AuditEvent::AttributeRead {
            class_id: d.class_id,
            logical_name: d.instance_id,
            attribute_id: d.attribute_id,
            outcome,
        },
    );
}

/// What a store has answered by itself.
fn own_answer(rights: AttributeAccess, r: &StoreResult<()>) -> (e: DataAccessResult)
    ensures
        e == answered(rights, *r),
{
    if !rights.can_read() {
        return DataAccessResult::ReadWriteDenied;
    }
    match r {
        Ok(_) => DataAccessResult::Success,
        Err(e) => *e,
    }
}

/// Ask a store for an attribute whose result has no room.
fn ask_in_vain<S: ObjectStore>(
    store: &S,
    d: &AttributeDescriptor,
    access: Option<SelectiveAccess<'_>>,
    left: usize,
)
    requires
        left < 2,
    ensures
        has_no_room(*store, d@, opt_view(access), left as int),
{
    proof {
        lemma_name_of(d.instance_id);
    }
    let rights = store.attribute_access(d.class_id, d.instance_id, d.attribute_id);
    assert(grants(*store, d@, rights));
    if rights.can_read() && left == 1 {
        let (written, r) = ask_value(store, d, access, 0);
        assert(yields(*store, d@, opt_view(access), 0, written@, r));
        assert(is_asked(*store, d@, opt_view(access), 0));
    }
}

/// Read one attribute of several.
pub(super) fn read_one<S: ObjectStore>(
    store: &mut S,
    d: &AttributeDescriptor,
    access: Option<SelectiveAccess<'_>>,
    room: usize,
) -> (outcome: StoreResult<Vec<u8>>)
    ensures
        reads(*old(store), d@, opt_view(access), room as nat, outcome_view(outcome), *final(store)),
        outcome matches Ok(v) ==> v@.len() <= room,
{
    proof {
        reveal(reads);
    }
    let (rights, written, r) = ask(store, d, access, room);
    let outcome = read_answer(rights, written, r);
    note_read(store, d, code_of(&outcome));
    outcome
}

/// Read an attribute by short name.
pub(super) fn read_by_name<S: ObjectStore>(
    store: &mut S,
    d: &AttributeDescriptor,
    access: Option<SelectiveAccess<'_>>,
    room: usize,
) -> (outcome: StoreResult<Vec<u8>>)
    ensures
        reads_by_name(
            *old(store),
            d@,
            opt_view(access),
            room as nat,
            outcome_view(outcome),
            *final(store),
        ),
        outcome matches Ok(v) ==> v@.len() <= room,
{
    let (rights, written, r) = ask(store, d, access, room);
    note_read(store, d, own_answer(rights, &r));
    read_answer(rights, written, r)
}

/// Read an attribute by itself.
fn read_alone<S: ObjectStore>(
    store: &mut S,
    d: &AttributeDescriptor,
    access: Option<SelectiveAccess<'_>>,
    room: usize,
) -> (outcome: StoreResult<Vec<u8>>)
    ensures
        reads_alone(
            *old(store),
            d@,
            opt_view(access),
            room as nat,
            outcome_view(outcome),
            *final(store),
        ),
        outcome matches Ok(v) ==> v@.len() <= room,
{
    let (rights, written, r) = ask(store, d, access, room);
    let first = own_answer(rights, &r);
    note_read(store, d, first);
    let ghost held = *store;
    assert(read_noted(*old(store), d@, answered(rights, r), held));
    let outcome = read_answer(rights, written, r);
    let last = code_of(&outcome);
    if last != first {
        note_read(store, d, last);
    }
    outcome
}

impl<S: ObjectStore, P: CryptoProvider, const N: usize> Server<S, P, N> {
    /// Deliver what was read — in one APDU or in blocks.
    fn answer_get(&mut self, invoke_id: InvokeId, outcome: StoreResult<Vec<u8>>, out: &mut [u8]) -> (r:
        Result<usize>)
        ensures
            old(self)@.answers_get(
                invoke_id,
                outcome_view(outcome),
                ExchangeV {
                    n: N as nat,
                    before: old(out)@,
                    after: final(out)@,
                    next: final(self)@,
                    r,
                },
            ),
            final(self).objects() == old(self).objects(),
    {
        let value = match outcome {
            Ok(v) => v,
            Err(e) => {
                return self.get_error(invoke_id, e, out);
            },
        };
        let overhead: usize = self.protection_overhead();
        if value.len().saturating_add(4 + overhead) <= self.client_max_pdu_size as usize {
            let data = Data::from_bytes_in(value.as_slice())?;
            let response = GetResponse::Normal { invoke_id, result: GetDataResult::Data(data) };
            return self.send(&Apdu::GetResponse(response), out);
        }
        // Too large for one APDU. The client must have agreed to block transfer;
        // otherwise there is no way to deliver this and saying so beats truncating.

        if !self.negotiated.contains(Conformance::BLOCK_TRANSFER_WITH_GET_OR_READ()) {
            // The value exists and the client may read it; there is simply no way to
            // deliver it under what was negotiated.
            return self.get_error(invoke_id, DataAccessResult::DataBlockUnavailable, out);
        }
        self.begin_blocks(invoke_id, Outbound::Get, value, out)
    }

    /// Handle a GET request.
    pub(super) fn handle_get(&mut self, req: GetRequest<'_>, out: &mut [u8]) -> (r: Result<usize>)
        ensures
            old(self)@.gets(
                old(self).objects(),
                req@,
                ExchangeV {
                    n: N as nat,
                    before: old(out)@,
                    after: final(out)@,
                    next: final(self)@,
                    r,
                },
                final(self).objects(),
            ),
    {
        if self.state != ServerState::Associated {
            return self.not_possible(out);
        }
        if !self.negotiated.contains(Conformance::GET()) {
            return self.not_supported(out);
        }
        match req {
            GetRequest::Normal { invoke_id, descriptor, access } => {
                // A new request abandons whatever was half-delivered. The client asked for
                // something else; continuing to hold the old transfer would mean a later
                // `get-request-next` silently returned a block of it.
                self.abandon();
                let outcome = read_alone(&mut self.store, &descriptor, access, N);
                assert(self@ == old(self)@.idle());
                let ghost read = outcome_view(outcome);
                let ghost after = self.objects();
                let r = self.answer_get(invoke_id, outcome, out);
                proof {
                    let x = ExchangeV {
                        n: N as nat,
                        before: old(out)@,
                        after: out@,
                        next: self@,
                        r,
                    };
                    assert(old(self)@.idle().answers_get(invoke_id, read, x));
                    assert(reads_alone(
                        old(self).objects(),
                        descriptor@,
                        opt_view(access),
                        x.n,
                        read,
                        after,
                    ));
                    assert(old(self)@.gets_one(
                        old(self).objects(),
                        invoke_id,
                        descriptor@,
                        opt_view(access),
                        x,
                        after,
                    ));
                }
                r
            },
            GetRequest::Next { invoke_id, block_number } => self.handle_get_next(
                invoke_id,
                block_number,
                out,
            ),
            GetRequest::WithList { invoke_id, list } => self.handle_get_with_list(
                invoke_id,
                list.as_slice(),
                out,
            ),
        }
    }

    /// The client acknowledges a block and asks for the next.
    fn handle_get_next(&mut self, invoke_id: InvokeId, acked: u32, out: &mut [u8]) -> (r: Result<
        usize,
    >)
        ensures
            old(self)@.gets_next(
                invoke_id,
                acked,
                ExchangeV {
                    n: N as nat,
                    before: old(out)@,
                    after: final(out)@,
                    next: final(self)@,
                    r,
                },
            ),
            final(self).objects() == old(self).objects(),
    {
        match &self.transfer {
            Transfer::Sending { invoke_id: id, service: Outbound::Get, block, .. } => {
                // The acknowledgement must name the block actually last sent, under the
                // invoke id the transfer was started with. Anything else is a client that
                // has lost track, and answering it would deliver the wrong fragment as
                // though it were the right one.
                if invoke_id != *id || acked != *block {
                    self.abandon();
                    return self.get_error(
                        invoke_id,
                        DataAccessResult::DataBlockNumberInvalid,
                        out,
                    );
                }
            },
            _ => {
                // Nothing is being transferred. The standard has a code for exactly this,
                // and it is worth using: a client that gets `no-long-get-in-progress`
                // knows its transfer was dropped, where a generic exception tells it
                // nothing.
                return self.get_error(invoke_id, DataAccessResult::NoLongGetInProgress, out);
            },
        }
        self.send_next_block(out)
    }

    /// Deliver what was read of several attributes.
    fn answer_get_list(&mut self, invoke_id: InvokeId, count: usize, raw: Vec<u8>, out: &mut [u8]) -> (r:
        Result<usize>)
        ensures
            forall|outcomes: Seq<StoreResult<Seq<u8>>>|
                outcomes.len() == count && #[trigger] results_bytes(outcomes) == raw@ ==> old(
                    self,
                )@.answers_get_list(
                    invoke_id,
                    outcomes,
                    ExchangeV {
                        n: N as nat,
                        before: old(out)@,
                        after: final(out)@,
                        next: final(self)@,
                        r,
                    },
                ),
            final(self).objects() == old(self).objects(),
    {
        // The count prefix belongs to the list, so it is part of what gets blocked.
        if count > 0xFFFF_FFFF {
            return Err(Error::new(ErrorKind::InvalidLength, 0));
        }
        let mut body: Vec<u8> = Vec::new();
        body.write_length(count)?;
        extend(&mut body, raw.as_slice());
        assert(body@ =~= enc_length(count as nat) + raw@);
        let overhead: usize = self.protection_overhead();
        if body.len().saturating_add(4 + overhead) <= self.client_max_pdu_size as usize {
            let mut plain: Vec<u8> = Vec::new();
            plain.push(0xC4);
            plain.push(0x03);
            plain.push(invoke_id.0);
            extend(&mut plain, body.as_slice());
            assert(plain@ =~= seq![0xC4u8, 0x03, invoke_id.0] + body@);
            return self.send_plain(plain.as_slice(), out);
        }
        if !self.negotiated.contains(Conformance::BLOCK_TRANSFER_WITH_GET_OR_READ()) {
            return self.get_error(invoke_id, DataAccessResult::DataBlockUnavailable, out);
        }
        if body.len() > N {
            return Err(Error::new(ErrorKind::BufferTooSmall { needed: body.len() }, 0));
        }
        // A blocked response carries the encoded body of whichever response form it is,
        // so what goes into the blocks here is the list, count prefix included.

        self.begin_blocks(invoke_id, Outbound::Get, body, out)
    }

    /// Read several attributes in one exchange.
    ///
    /// Each item gets its own result, so one unreadable object does not lose the whole
    /// read — which is the reason a head-end uses this service rather than issuing the
    /// reads one at a time.
    #[verifier::loop_isolation(false)]
    fn handle_get_with_list(
        &mut self,
        invoke_id: InvokeId,
        list: &[AttributeDescriptorWithSelection<'_>],
        out: &mut [u8],
    ) -> (r: Result<usize>)
        ensures
            old(self)@.gets_list(
                old(self).objects(),
                invoke_id,
                views(list@),
                ExchangeV {
                    n: N as nat,
                    before: old(out)@,
                    after: final(out)@,
                    next: final(self)@,
                    r,
                },
                final(self).objects(),
            ),
    {
        if !self.negotiated.contains(Conformance::MULTIPLE_REFERENCES()) {
            return self.not_supported(out);
        }
        self.abandon();
        // Every result is encoded into one buffer as it is produced.
        let mut raw: Vec<u8> = Vec::new();
        let mut i: usize = 0;
        let ghost mut stores: Seq<S> = seq![self.objects()];
        let ghost mut outcomes: Seq<StoreResult<Seq<u8>>> = Seq::empty();
        let ghost items = views(list@);
        assert(raw@ =~= results_bytes(outcomes));
        while i < list.len()
            invariant
                i <= list@.len(),
                self@ == old(self)@.idle(),
                outcomes.len() == i,
                reads_each(items, N as nat, stores, outcomes),
                stores[0] == old(self).objects(),
                stores.last() == self.objects(),
                raw@ == results_bytes(outcomes),
                raw@.len() <= N,
            decreases list@.len() - i,
        {
            let left: usize = N - raw.len();
            let item = list[i];
            assert(items[i as int] == item@);
            if left < 2 {
                // A choice with nothing behind it is all there is room for, or not even that.
                ask_in_vain(&self.store, &item.descriptor, item.access, left);
                proof {
                    let x = ExchangeV {
                        n: N as nat,
                        before: old(out)@,
                        after: out@,
                        next: self@,
                        r: Err::<usize, Error>(no_room_left(N as nat)),
                    };
                    assert(reads_each(items, x.n, stores, outcomes));
                    assert(old(self)@.gets_each(
                        old(self).objects(),
                        invoke_id,
                        items,
                        x,
                        self.objects(),
                    ));
                }
                return Err(Error::new(ErrorKind::BufferTooSmall { needed: 1 }, N));
            }
            let outcome = read_one(&mut self.store, &item.descriptor, item.access, left - 1);
            proof {
                lemma_reads_one_more(
                    items,
                    N as nat,
                    stores,
                    outcomes,
                    outcome_view(outcome),
                    self.objects(),
                );
                stores = stores.push(self.objects());
                outcomes = outcomes.push(outcome_view(outcome));
            }
            // `get-data-result` is a choice: 0 and the value, or 1 and the reason.
            match outcome {
                Ok(v) => {
                    raw.push(0);
                    extend(&mut raw, v.as_slice());
                    assert(raw@ =~= results_bytes(outcomes));
                },
                Err(e) => {
                    raw.push(1);
                    raw.push(e.as_u8());
                    assert(raw@ =~= results_bytes(outcomes));
                },
            }
            i += 1;
        }
        self.answer_get_list(invoke_id, list.len(), raw, out)
    }
}

} // verus!
