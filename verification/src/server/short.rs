//! Reading, writing and invoking by short name.
//!
//! The services differ from those by logical name in how a target is *named*, not in what a
//! read or a write is.

use vstd::prelude::*;

use super::invoke::{run_method, MethodResult};
use super::model::Outbound;
use super::read::read_by_name;
use super::store::{ObjectStore, StoreResult};
use super::write::write_one;
use super::{Server, ServerState, Transfer};
use crate::axdr::data::Data;
use crate::codec::{extend, Error, ErrorKind, Result, Writer};
use crate::cosem::sn::ShortNameTarget;
use crate::security::CryptoProvider;
use crate::xdlms::apdu::Apdu;
use crate::xdlms::ids::InvokeId;
use crate::xdlms::initiate::Conformance;
use crate::xdlms::result::{ActionResult, DataAccessResult};
use crate::xdlms::service::{
    AttributeDescriptor, MethodDescriptor, ReadRequest, SelectiveAccess, VariableAccess,
    WriteResponse, WriteResult, MAX_ACCESS_ITEMS,
};
#[allow(unused_imports)]
use super::invoke::{invokes, method_view};
#[allow(unused_imports)]
use super::model::{read_error_v, ExchangeV, ServerV, TransferV};
#[allow(unused_imports)]
use super::read::{outcome_view, reads_by_name, result_bytes, results_bytes};
#[allow(unused_imports)]
use super::store::resolves;
#[allow(unused_imports)]
use super::write::{no_room_left, writes_to};
#[allow(unused_imports)]
use crate::axdr::data::DataV;
#[allow(unused_imports)]
use crate::codec::enc_length;
#[allow(unused_imports)]
use crate::xdlms::apdu::ApduV;
#[allow(unused_imports)]
use crate::xdlms::list::{opt_view, views};
#[allow(unused_imports)]
use crate::xdlms::service::{
    AttributeDescriptorV, MethodDescriptorV, ReadRequestV, SelectiveAccessV, VariableAccessV,
    WriteResponseV, WriteResultV,
};

verus! {

/// What a method's outcome looks like to a short-name service.
///
/// Short-name referencing has no ACTION service and therefore no `Action-Result`: a
/// method is invoked by reading or writing its short name, and the answer is a
/// `Data-Access-Result` like any other. The two enumerations overlap for the codes that
/// mean the same thing and this maps between them by name rather than by number, because
/// they are different enumerations that happen to share several values.
#[verifier::allow_in_spec]
pub fn action_to_data_access(e: ActionResult) -> DataAccessResult
    returns
        (match e {
            ActionResult::Success => DataAccessResult::Success,
            ActionResult::HardwareFault => DataAccessResult::HardwareFault,
            ActionResult::TemporaryFailure => DataAccessResult::TemporaryFailure,
            ActionResult::ReadWriteDenied => DataAccessResult::ReadWriteDenied,
            ActionResult::ObjectUndefined => DataAccessResult::ObjectUndefined,
            ActionResult::ObjectClassInconsistent => DataAccessResult::ObjectClassInconsistent,
            ActionResult::ObjectUnavailable => DataAccessResult::ObjectUnavailable,
            ActionResult::TypeUnmatched => DataAccessResult::TypeUnmatched,
            ActionResult::ScopeOfAccessViolated => DataAccessResult::ScopeOfAccessViolated,
            ActionResult::DataBlockUnavailable => DataAccessResult::DataBlockUnavailable,
            ActionResult::LongActionAborted => DataAccessResult::LongGetAborted,
            ActionResult::NoLongActionInProgress => DataAccessResult::NoLongGetInProgress,
            _ => DataAccessResult::OtherReason,
        }),
{
    match e {
        ActionResult::Success => DataAccessResult::Success,
        ActionResult::HardwareFault => DataAccessResult::HardwareFault,
        ActionResult::TemporaryFailure => DataAccessResult::TemporaryFailure,
        ActionResult::ReadWriteDenied => DataAccessResult::ReadWriteDenied,
        ActionResult::ObjectUndefined => DataAccessResult::ObjectUndefined,
        ActionResult::ObjectClassInconsistent => DataAccessResult::ObjectClassInconsistent,
        ActionResult::ObjectUnavailable => DataAccessResult::ObjectUnavailable,
        ActionResult::TypeUnmatched => DataAccessResult::TypeUnmatched,
        ActionResult::ScopeOfAccessViolated => DataAccessResult::ScopeOfAccessViolated,
        ActionResult::DataBlockUnavailable => DataAccessResult::DataBlockUnavailable,
        ActionResult::LongActionAborted => DataAccessResult::LongGetAborted,
        ActionResult::NoLongActionInProgress => DataAccessResult::NoLongGetInProgress,
        // Everything else — including a code a later edition defines — is "the method
        // did not run", which is what a short-name client can act on.
        _ => DataAccessResult::OtherReason,
    }
}

/// The value that reading a method's name gives, given what the method came to. A method
/// that returned nothing still occupies its slot.
pub open spec fn method_read(outcome: MethodResult<Seq<u8>>, room: nat) -> StoreResult<Seq<u8>> {
    match outcome {
        Ok(Some(v)) => Ok(v),
        Ok(None) => if room == 0 {
            Err(DataAccessResult::OtherReason)
        } else {
            Ok(seq![0u8])
        },
        Err(e) => Err(action_to_data_access(e)),
    }
}

/// What writing a method's name comes to, given what the method came to.
pub open spec fn method_written(outcome: MethodResult<Seq<u8>>) -> DataAccessResult {
    match outcome {
        Ok(_) => DataAccessResult::Success,
        Err(e) => action_to_data_access(e),
    }
}

/// The parameter that a selector carries to a method.
pub open spec fn carried(access: Option<SelectiveAccessV>) -> Option<DataV> {
    match access {
        Some(a) => Some(a.parameters),
        None => None,
    }
}

/// Whether reading a method may come to this.
pub open spec fn reads_method<S: ObjectStore>(
    before: S,
    d: MethodDescriptorV,
    access: Option<SelectiveAccessV>,
    room: nat,
    outcome: StoreResult<Seq<u8>>,
    after: S,
) -> bool {
    exists|m: MethodResult<Seq<u8>>| #[trigger]
        invokes(before, d, carried(access), room, m, after) && outcome == method_read(m, room)
}

/// Whether reading what a name stands for may come to this.
pub open spec fn reads_target<S: ObjectStore>(
    before: S,
    target: Option<ShortNameTarget>,
    access: Option<SelectiveAccessV>,
    room: nat,
    outcome: StoreResult<Seq<u8>>,
    after: S,
) -> bool {
    match target {
        None => after == before && outcome == Err::<Seq<u8>, DataAccessResult>(
            DataAccessResult::ObjectUndefined,
        ),
        Some(ShortNameTarget::Attribute { class_id, logical_name, attribute_id }) => reads_by_name(
            before,
            AttributeDescriptorV { class_id, instance_id: logical_name@, attribute_id },
            access,
            room,
            outcome,
            after,
        ),
        Some(ShortNameTarget::Method { class_id, logical_name, method_id }) => reads_method(
            before,
            MethodDescriptorV { class_id, instance_id: logical_name@, method_id },
            access,
            room,
            outcome,
            after,
        ),
    }
}

/// Whether reading a name may come to this.
pub open spec fn reads_name<S: ObjectStore>(
    before: S,
    name: u16,
    access: Option<SelectiveAccessV>,
    room: nat,
    outcome: StoreResult<Seq<u8>>,
    after: S,
) -> bool {
    exists|target: Option<ShortNameTarget>| #[trigger]
        resolves(before, name, target) && reads_target(
            before,
            target,
            access,
            room,
            outcome,
            after,
        )
}

/// The name in an entry, and the part of what it stands for; an entry that continues a
/// transfer names nothing.
pub open spec fn named(entry: VariableAccessV) -> Option<(u16, Option<SelectiveAccessV>)> {
    match entry {
        VariableAccessV::VariableName(name) => Some((name, None)),
        VariableAccessV::Parameterized { name, selector, parameter } => Some(
            (name, Some(SelectiveAccessV { selector, parameters: parameter })),
        ),
        _ => None,
    }
}

/// Whether reading an entry may come to this, with so much room for the value.
#[verifier::opaque]
pub open spec fn reads_entry<S: ObjectStore>(
    before: S,
    entry: VariableAccessV,
    room: nat,
    outcome: StoreResult<Seq<u8>>,
    after: S,
) -> bool {
    match named(entry) {
        Some((name, access)) => reads_name(before, name, access, room, outcome, after),
        None => after == before && outcome == Err::<Seq<u8>, DataAccessResult>(
            DataAccessResult::OtherReason,
        ),
    }
}

/// The room that is left for a value after some results and the choice before it.
pub open spec fn room_for(outcomes: Seq<StoreResult<Seq<u8>>>, n: nat) -> nat {
    (n - results_bytes(outcomes).len() - 1) as nat
}

/// Whether an entry of a read came to its outcome. There has to be room for the choice, and
/// the value has what is left behind it.
pub open spec fn entry_at<S: ObjectStore>(
    entries: Seq<VariableAccessV>,
    n: nat,
    stores: Seq<S>,
    outcomes: Seq<StoreResult<Seq<u8>>>,
    i: int,
) -> bool {
    &&& results_bytes(outcomes.take(i)).len() < n
    &&& reads_entry(
        stores[i],
        entries[i],
        room_for(outcomes.take(i), n),
        outcomes[i],
        stores[i + 1],
    )
}

/// Whether the entries of a read came to these outcomes, each from the store as the one
/// before left it.
pub open spec fn reads_entries<S: ObjectStore>(
    entries: Seq<VariableAccessV>,
    n: nat,
    stores: Seq<S>,
    outcomes: Seq<StoreResult<Seq<u8>>>,
) -> bool {
    &&& stores.len() == outcomes.len() + 1
    &&& outcomes.len() <= entries.len()
    &&& forall|i: int|
        0 <= i < outcomes.len() ==> #[trigger] entry_at(entries, n, stores, outcomes, i)
}

/// One more entry of a read.
proof fn lemma_reads_one_more<S: ObjectStore>(
    entries: Seq<VariableAccessV>,
    n: nat,
    stores: Seq<S>,
    outcomes: Seq<StoreResult<Seq<u8>>>,
    outcome: StoreResult<Seq<u8>>,
    after: S,
)
    requires
        reads_entries(entries, n, stores, outcomes),
        outcomes.len() < entries.len(),
        results_bytes(outcomes).len() < n,
        reads_entry(
            stores.last(),
            entries[outcomes.len() as int],
            room_for(outcomes, n),
            outcome,
            after,
        ),
    ensures
        reads_entries(entries, n, stores.push(after), outcomes.push(outcome)),
        results_bytes(outcomes.push(outcome)) == results_bytes(outcomes) + result_bytes(outcome),
{
    let more = outcomes.push(outcome);
    let held = stores.push(after);
    assert(more.drop_last() =~= outcomes);
    assert forall|j: int| 0 <= j < more.len() implies #[trigger] entry_at(
        entries,
        n,
        held,
        more,
        j,
    ) by {
        assert(more.take(j) =~= outcomes.take(j));
        if j < outcomes.len() {
            assert(entry_at(entries, n, stores, outcomes, j));
        } else {
            assert(outcomes.take(j) =~= outcomes);
        }
    }
}

/// Whether writing to a method may come to this.
pub open spec fn writes_method<S: ObjectStore>(
    before: S,
    d: MethodDescriptorV,
    value: DataV,
    outcome: DataAccessResult,
    after: S,
) -> bool {
    exists|m: MethodResult<Seq<u8>>| #[trigger]
        invokes(before, d, Some(value), 1, m, after) && outcome == method_written(m)
}

/// Whether writing to what a name stands for may come to this.
pub open spec fn writes_target<S: ObjectStore>(
    before: S,
    target: Option<ShortNameTarget>,
    access: Option<SelectiveAccessV>,
    value: DataV,
    outcome: DataAccessResult,
    after: S,
) -> bool {
    match target {
        None => after == before && outcome == DataAccessResult::ObjectUndefined,
        Some(ShortNameTarget::Attribute { class_id, logical_name, attribute_id }) => writes_to(
            before,
            AttributeDescriptorV { class_id, instance_id: logical_name@, attribute_id },
            access,
            value,
            outcome,
            after,
        ),
        Some(ShortNameTarget::Method { class_id, logical_name, method_id }) => writes_method(
            before,
            MethodDescriptorV { class_id, instance_id: logical_name@, method_id },
            value,
            outcome,
            after,
        ),
    }
}

/// Whether writing to a name may come to this.
pub open spec fn writes_name<S: ObjectStore>(
    before: S,
    name: u16,
    access: Option<SelectiveAccessV>,
    value: DataV,
    outcome: DataAccessResult,
    after: S,
) -> bool {
    exists|target: Option<ShortNameTarget>| #[trigger]
        resolves(before, name, target) && writes_target(
            before,
            target,
            access,
            value,
            outcome,
            after,
        )
}

/// Whether writing an entry may come to this.
pub open spec fn writes_entry<S: ObjectStore>(
    before: S,
    entry: VariableAccessV,
    value: DataV,
    outcome: DataAccessResult,
    after: S,
) -> bool {
    match named(entry) {
        Some((name, access)) => writes_name(before, name, access, value, outcome, after),
        None => after == before && outcome == DataAccessResult::OtherReason,
    }
}

/// Whether the entries of a write may have come to these outcomes, each in the store as the
/// one before left it.
pub open spec fn writes_entries<S: ObjectStore>(
    entries: Seq<VariableAccessV>,
    values: Seq<DataV>,
    stores: Seq<S>,
    outcomes: Seq<DataAccessResult>,
) -> bool {
    &&& stores.len() == outcomes.len() + 1
    &&& outcomes.len() <= entries.len()
    &&& forall|i: int|
        0 <= i < outcomes.len() ==> writes_entry(
            stores[i],
            entries[i],
            values[i],
            #[trigger] outcomes[i],
            stores[i + 1],
        )
}

/// The answer to one entry of a write.
pub open spec fn written_v(outcome: DataAccessResult) -> WriteResultV {
    if outcome is Success {
        WriteResultV::Success
    } else {
        WriteResultV::Error(outcome)
    }
}

impl<P: CryptoProvider> ExchangeV<P> {
    /// An exchange in which nothing is said.
    pub open spec fn silent(self) -> bool {
        self.after == self.before && self.r == Ok::<usize, Error>(0)
    }
}

impl<P: CryptoProvider> ServerV<P> {
    /// What answering a read by short name comes to, given what was read. A fragment carries
    /// no entry number, so only a read of one entry goes out in blocks.
    pub open spec fn answers_read(
        self,
        outcomes: Seq<StoreResult<Seq<u8>>>,
        x: ExchangeV<P>,
    ) -> bool {
        let body = enc_length(outcomes.len()) + results_bytes(outcomes);
        if body.len() + 4 + self.overhead() <= self.client_max {
            self.sends_plain(seq![0x0Cu8] + body, x)
        } else if outcomes.len() != 1 || !self.agreed(
            Conformance::BLOCK_TRANSFER_WITH_GET_OR_READ(),
        ) {
            self.sends(read_error_v(DataAccessResult::DataBlockUnavailable), x)
        } else {
            self.begins_blocks(InvokeId(0), Outbound::Read, results_bytes(outcomes).skip(1), x)
        }
    }

    /// What reading several names comes to. The results are gathered in so many bytes; where
    /// those run out, no more are read and there is no reply.
    pub open spec fn reads_names<S: ObjectStore>(
        self,
        store: S,
        entries: Seq<VariableAccessV>,
        x: ExchangeV<P>,
        after: S,
    ) -> bool {
        exists|stores: Seq<S>, outcomes: Seq<StoreResult<Seq<u8>>>|
            {
                &&& #[trigger] reads_entries(entries, x.n, stores, outcomes)
                &&& stores[0] == store
                &&& stores.last() == after
                &&& if outcomes.len() == entries.len() && results_bytes(outcomes).len() <= x.n {
                    self.answers_read(outcomes, x)
                } else {
                    &&& results_bytes(outcomes).len() >= x.n
                    &&& x.next == self
                    &&& x.fails(no_room_left(x.n))
                }
            }
    }

    /// What asking for the next block of a read by short name comes to.
    pub open spec fn reads_next(self, acked: u16, x: ExchangeV<P>) -> bool {
        match self.transfer {
            TransferV::Sending { service: Outbound::Read, block, .. } => if acked != block {
                self.idle().sends(read_error_v(DataAccessResult::DataBlockNumberInvalid), x)
            } else {
                self.sends_block(x)
            },
            _ => self.sends(read_error_v(DataAccessResult::NoLongGetInProgress), x),
        }
    }

    /// What a read by short name comes to.
    pub open spec fn reads_short<S: ObjectStore>(
        self,
        store: S,
        req: ReadRequestV,
        x: ExchangeV<P>,
        after: S,
    ) -> bool {
        let entries = req.specification;
        if !(self.state is Associated) {
            after == store && self.not_possible(x)
        } else if !self.agreed(Conformance::READ()) {
            after == store && self.not_supported(x)
        } else if entries.len() == 0 || entries.len() > MAX_ACCESS_ITEMS {
            after == store && self.not_possible(x)
        } else if entries.len() == 1 && entries[0] is BlockNumber {
            after == store && self.reads_next(entries[0]->BlockNumber_0, x)
        } else {
            self.idle().reads_names(store, entries, x, after)
        }
    }

    /// What writing several names comes to. A write that nobody confirms has no reply.
    pub open spec fn writes_names<S: ObjectStore>(
        self,
        store: S,
        entries: Seq<VariableAccessV>,
        values: Seq<DataV>,
        confirmed: bool,
        x: ExchangeV<P>,
        after: S,
    ) -> bool {
        exists|stores: Seq<S>, outcomes: Seq<DataAccessResult>|
            {
                &&& #[trigger] writes_entries(entries, values, stores, outcomes)
                &&& outcomes.len() == entries.len()
                &&& stores[0] == store
                &&& stores.last() == after
                &&& if confirmed {
                    self.sends(
                        ApduV::WriteResponse(
                            WriteResponseV {
                                results: outcomes.map_values(|o: DataAccessResult| written_v(o)),
                            },
                        ),
                        x,
                    )
                } else {
                    x.next == self && x.silent()
                }
            }
    }

    /// What a write by short name comes to. Where nobody confirms it there is nowhere to put
    /// a refusal, so nothing is said.
    pub open spec fn writes_short<S: ObjectStore>(
        self,
        store: S,
        entries: Seq<VariableAccessV>,
        values: Seq<DataV>,
        confirmed: bool,
        x: ExchangeV<P>,
        after: S,
    ) -> bool {
        let required = if confirmed {
            Conformance::WRITE()
        } else {
            Conformance::UNCONFIRMED_WRITE()
        };
        let paired = entries.len() == values.len() && 0 < entries.len() <= MAX_ACCESS_ITEMS;
        if self.state is Associated && self.agreed(required) && paired {
            self.idle().writes_names(store, entries, values, confirmed, x, after)
        } else if !confirmed {
            after == store && x.next == self && x.silent()
        } else if self.state is Associated && !self.agreed(required) {
            after == store && self.not_supported(x)
        } else {
            after == store && self.not_possible(x)
        }
    }
}

/// Read a method's name: invoke it.
fn read_method<S: ObjectStore>(
    store: &mut S,
    d: &MethodDescriptor,
    access: Option<SelectiveAccess<'_>>,
    room: usize,
) -> (r: StoreResult<Vec<u8>>)
    ensures
        reads_method(
            *old(store),
            d@,
            opt_view(access),
            room as nat,
            outcome_view(r),
            *final(store),
        ),
        r matches Ok(v) ==> v@.len() <= room,
{
    let parameters = match access {
        Some(a) => Some(a.parameters),
        None => None,
    };
    assert(opt_view(parameters) == carried(opt_view(access)));
    let outcome = run_method(store, d, parameters, room);
    let ghost came = method_view(outcome);
    let r: StoreResult<Vec<u8>> = match outcome {
        Ok(Some(v)) => Ok(v),
        // A method that returned nothing still occupies its slot.
        Ok(None) => if room == 0 {
            Err(DataAccessResult::OtherReason)
        } else {
            let mut null: Vec<u8> = Vec::new();
            null.push(0);
            assert(null@ =~= seq![0u8]);
            Ok(null)
        },
        Err(e) => Err(action_to_data_access(e)),
    };
    assert(outcome_view(r) == method_read(came, room as nat));
    assert(invokes(*old(store), d@, carried(opt_view(access)), room as nat, came, *store));
    r
}

/// The name in an entry, and the part of what it stands for.
fn name_in<'a>(entry: &VariableAccess<'a>) -> (r: Option<(u16, Option<SelectiveAccess<'a>>)>)
    ensures
        match r {
            Some((name, access)) => named(entry@) == Some((name, opt_view(access))),
            None => named(entry@) is None,
        },
{
    match *entry {
        VariableAccess::VariableName(name) => Some((name, None)),
        VariableAccess::Parameterized { name, selector, parameter } => {
            let access = SelectiveAccess { selector, parameters: parameter };
            assert(access@ == SelectiveAccessV { selector, parameters: parameter@ });
            Some((name, Some(access)))
        },
        _ => None,
    }
}

/// One entry of a short-name read.
fn read_entry<S: ObjectStore>(store: &mut S, entry: &VariableAccess<'_>, room: usize) -> (r:
    StoreResult<Vec<u8>>)
    ensures
        reads_entry(*old(store), entry@, room as nat, outcome_view(r), *final(store)),
        r matches Ok(v) ==> v@.len() <= room,
{
    proof {
        reveal(reads_entry);
    }
    let (name, access) = match name_in(entry) {
        Some(n) => n,
        // A block entry among several, or a write-block entry in a read: neither names
        // anything to read.
        None => {
            return Err(DataAccessResult::OtherReason);
        },
    };
    let target = store.resolve_short_name(name);
    assert(resolves(*old(store), name, target));
    match target {
        None => Err(DataAccessResult::ObjectUndefined),
        Some(ShortNameTarget::Attribute { class_id, logical_name, attribute_id }) => {
            let d = AttributeDescriptor { class_id, instance_id: logical_name, attribute_id };
            read_by_name(store, &d, access, room)
        },
        // Short-name referencing invokes a method by *reading* its short name with a
        // parameter — there is no ACTION service here, which is why the selector and the
        // parameter of a `parameterized-access` mean something different for a method than
        // for an attribute.
        Some(ShortNameTarget::Method { class_id, logical_name, method_id }) => {
            let d = MethodDescriptor { class_id, instance_id: logical_name, method_id };
            read_method(store, &d, access, room)
        },
    }
}

/// One entry of a short-name write.
fn write_entry<S: ObjectStore>(
    store: &mut S,
    entry: &VariableAccess<'_>,
    value: Data<'_>,
) -> (outcome: DataAccessResult)
    ensures
        writes_entry(*old(store), entry@, value@, outcome, *final(store)),
{
    let (name, access) = match name_in(entry) {
        Some(n) => n,
        None => {
            return DataAccessResult::OtherReason;
        },
    };
    let target = store.resolve_short_name(name);
    assert(resolves(*old(store), name, target));
    match target {
        None => DataAccessResult::ObjectUndefined,
        Some(ShortNameTarget::Attribute { class_id, logical_name, attribute_id }) => {
            let d = AttributeDescriptor { class_id, instance_id: logical_name, attribute_id };
            write_one(store, &d, access, value)
        },
        // Writing a method's short name invokes it with the value as its parameter, which
        // is how short-name referencing spells ACTION.
        Some(ShortNameTarget::Method { class_id, logical_name, method_id }) => {
            let d = MethodDescriptor { class_id, instance_id: logical_name, method_id };
            let came = run_method(store, &d, Some(value), 1);
            let ghost m = method_view(came);
            let outcome = match came {
                Ok(_) => DataAccessResult::Success,
                Err(e) => action_to_data_access(e),
            };
            assert(outcome == method_written(m));
            assert(opt_view(Some(value)) == Some(value@));
            assert(invokes(*old(store), d@, Some(value@), 1, m, *store));
            assert(writes_method(*old(store), d@, value@, outcome, *store));
            outcome
        },
    }
}

impl<S: ObjectStore, P: CryptoProvider, const N: usize> Server<S, P, N> {
    /// Answer a read by short name, in one APDU or in blocks.
    fn answer_read(
        &mut self,
        count: usize,
        results: Vec<u8>,
        out: &mut [u8],
        Ghost(outcomes): Ghost<Seq<StoreResult<Seq<u8>>>>,
    ) -> (r: Result<usize>)
        requires
            0 < count <= MAX_ACCESS_ITEMS,
            count == outcomes.len(),
            results@ == results_bytes(outcomes),
            results@.len() <= N,
        ensures
            old(self)@.answers_read(
                outcomes,
                ExchangeV {
                    n: N as nat,
                    before: old(out)@,
                    after: final(out)@,
                    next: final(self)@,
                    r,
                },
            ),
            final(self).objects() == old(self).objects(),
    {
        let mut body: Vec<u8> = Vec::new();
        body.write_length(count)?;
        extend(&mut body, results.as_slice());
        assert(body@ =~= enc_length(outcomes.len()) + results_bytes(outcomes));
        let overhead: usize = self.protection_overhead();
        if body.len().saturating_add(4 + overhead) <= self.client_max_pdu_size as usize {
            let mut plain: Vec<u8> = Vec::new();
            plain.push(0x0C);
            extend(&mut plain, body.as_slice());
            assert(plain@ =~= seq![0x0Cu8] + body@);
            return self.send_plain(plain.as_slice(), out);
        }
        // Too large. Only a single-entry read can be blocked, because a fragment carries
        // no entry number and a client could not attribute it.

        if count != 1 || !self.negotiated.contains(Conformance::BLOCK_TRANSFER_WITH_GET_OR_READ()) {
            return self.read_error(DataAccessResult::DataBlockUnavailable, out);
        }
        proof {
            assert(outcomes.drop_last() =~= Seq::empty());
            assert(results_bytes(outcomes) == results_bytes(outcomes.drop_last()) + result_bytes(
                outcomes.last(),
            ));
            assert(result_bytes(outcomes.last()).len() >= 1);
        }
        // The blocks carry the *value*, not the list: a `data-block-result` is one entry's
        // answer, so the count prefix and the choice byte stay out of it.
        let mut value: Vec<u8> = Vec::new();
        extend(
            &mut value,
            vstd::slice::slice_subrange(results.as_slice(), 1, results.len()),
        );
        assert(value@ =~= results_bytes(outcomes).skip(1));
        self.begin_blocks(InvokeId(0), Outbound::Read, value, out)
    }

    #[verifier::loop_isolation(false)]
    fn read_names(&mut self, entries: &[VariableAccess<'_>], out: &mut [u8]) -> (r: Result<usize>)
        requires
            0 < entries@.len() <= MAX_ACCESS_ITEMS,
        ensures
            old(self)@.reads_names(
                old(self).objects(),
                views(entries@),
                ExchangeV {
                    n: N as nat,
                    before: old(out)@,
                    after: final(out)@,
                    next: final(self)@,
                    r,
                },
                final(self).objects(),
            ),
    {
        let mut raw: Vec<u8> = Vec::new();
        let mut i: usize = 0;
        let ghost mut stores: Seq<S> = seq![self.objects()];
        let ghost mut outcomes: Seq<StoreResult<Seq<u8>>> = Seq::empty();
        let ghost items = views(entries@);
        while i < entries.len()
            invariant
                i <= items.len(),
                self@ == old(self)@,
                outcomes.len() == i,
                reads_entries(items, N as nat, stores, outcomes),
                stores[0] == old(self).objects(),
                stores.last() == self.objects(),
                raw@ == results_bytes(outcomes),
                raw@.len() <= N,
            decreases items.len() - i,
        {
            if raw.len() >= N {
                proof {
                    let x = ExchangeV {
                        n: N as nat,
                        before: old(out)@,
                        after: out@,
                        next: self@,
                        r: Err::<usize, Error>(no_room_left(N as nat)),
                    };
                    assert(reads_entries(items, x.n, stores, outcomes));
                    assert(old(self)@.reads_names(old(self).objects(), items, x, self.objects()));
                }
                return Err(Error::new(ErrorKind::BufferTooSmall { needed: 1 }, N));
            }
            let room: usize = N - raw.len() - 1;
            let entry = entries[i];
            assert(items[i as int] == entry@);
            let outcome = read_entry(&mut self.store, &entry, room);
            proof {
                lemma_reads_one_more(
                    items,
                    N as nat,
                    stores,
                    outcomes,
                    outcome_view(outcome),
                    self.objects(),
                );
                stores = stores.push(self.objects());
                outcomes = outcomes.push(outcome_view(outcome));
            }
            match outcome {
                Ok(v) => {
                    raw.push(0);
                    extend(&mut raw, v.as_slice());
                    assert(raw@ =~= results_bytes(outcomes));
                },
                Err(e) => {
                    if N - raw.len() < 2 {
                        proof {
                            let x = ExchangeV {
                                n: N as nat,
                                before: old(out)@,
                                after: out@,
                                next: self@,
                                r: Err::<usize, Error>(no_room_left(N as nat)),
                            };
                            assert(results_bytes(outcomes).len() == raw@.len() + 2);
                            assert(reads_entries(items, x.n, stores, outcomes));
                            assert(old(self)@.reads_names(
                                old(self).objects(),
                                items,
                                x,
                                self.objects(),
                            ));
                        }
                        return Err(Error::new(ErrorKind::BufferTooSmall { needed: 1 }, N));
                    }
                    raw.push(1);
                    raw.push(e.as_u8());
                    assert(raw@ =~= results_bytes(outcomes));
                },
            }
            i += 1;
        }
        let r = self.answer_read(entries.len(), raw, out, Ghost(outcomes));
        assert(reads_entries(items, N as nat, stores, outcomes));
        r
    }

    /// Continue a blocked short-name read.
    fn continue_read_block(&mut self, acked: u16, out: &mut [u8]) -> (r: Result<usize>)
        ensures
            old(self)@.reads_next(
                acked,
                ExchangeV {
                    n: N as nat,
                    before: old(out)@,
                    after: final(out)@,
                    next: final(self)@,
                    r,
                },
            ),
            final(self).objects() == old(self).objects(),
    {
        match &self.transfer {
            Transfer::Sending { service: Outbound::Read, block, .. } => {
                if acked as u32 != *block {
                    self.abandon();
                    return self.read_error(DataAccessResult::DataBlockNumberInvalid, out);
                }
            },
            _ => {
                return self.read_error(DataAccessResult::NoLongGetInProgress, out);
            },
        }
        self.send_next_block(out)
    }

    /// Read attributes by short name.
    ///
    /// One result per entry, in order, exactly as the batched logical-name read works.
    ///
    /// A value too large for the negotiated PDU size is delivered by block transfer, and
    /// the short-name form of that is a `data-block-result` inside the read response,
    /// continued by a `block-number-access` entry rather than by a service of its own.
    pub(super) fn handle_read(&mut self, req: &ReadRequest<'_>, out: &mut [u8]) -> (r: Result<
        usize,
    >)
        ensures
            old(self)@.reads_short(
                old(self).objects(),
                req@,
                ExchangeV {
                    n: N as nat,
                    before: old(out)@,
                    after: final(out)@,
                    next: final(self)@,
                    r,
                },
                final(self).objects(),
            ),
    {
        if self.state != ServerState::Associated {
            return self.not_possible(out);
        }
        if !self.negotiated.contains(Conformance::READ()) {
            return self.not_supported(out);
        }
        let count: usize = req.specification.len();
        if count == 0 || count > MAX_ACCESS_ITEMS {
            return self.not_possible(out);
        }
        // A `block-number-access` entry continues a transfer rather than starting one, so
        // it is answered before anything else is touched.

        assert(req@.specification[0] == req.specification@[0]@);
        if count == 1 {
            if let VariableAccess::BlockNumber(acked) = req.specification[0] {
                return self.continue_read_block(acked, out);
            }
        }
        self.abandon();
        self.read_names(req.specification.as_slice(), out)
    }

    #[verifier::loop_isolation(false)]
    fn write_names(
        &mut self,
        entries: &[VariableAccess<'_>],
        values: &[Data<'_>],
        confirmed: bool,
        out: &mut [u8],
    ) -> (r: Result<usize>)
        requires
            entries@.len() == values@.len(),
        ensures
            old(self)@.writes_names(
                old(self).objects(),
                views(entries@),
                views(values@),
                confirmed,
                ExchangeV {
                    n: N as nat,
                    before: old(out)@,
                    after: final(out)@,
                    next: final(self)@,
                    r,
                },
                final(self).objects(),
            ),
    {
        let mut results: Vec<WriteResult> = Vec::new();
        let mut i: usize = 0;
        let ghost mut stores: Seq<S> = seq![self.objects()];
        let ghost mut outcomes: Seq<DataAccessResult> = Seq::empty();
        let ghost items = views(entries@);
        let ghost given = views(values@);
        assert(views(results@) =~= outcomes.map_values(|o: DataAccessResult| written_v(o)));
        while i < entries.len()
            invariant
                i <= items.len(),
                self@ == old(self)@,
                outcomes.len() == i,
                writes_entries(items, given, stores, outcomes),
                stores[0] == old(self).objects(),
                stores.last() == self.objects(),
                views(results@) == outcomes.map_values(|o: DataAccessResult| written_v(o)),
            decreases items.len() - i,
        {
            let entry = entries[i];
            let value = values[i];
            assert(items[i as int] == entry@ && given[i as int] == value@);
            let outcome = write_entry(&mut self.store, &entry, value);
            let result = if outcome == DataAccessResult::Success {
                WriteResult::Success
            } else {
                WriteResult::Error(outcome)
            };
            let ghost listed = results@;
            results.push(result);
            proof {
                let before = outcomes;
                stores = stores.push(self.objects());
                outcomes = outcomes.push(outcome);
                assert(result@ == written_v(outcome));
                assert(views(results@) =~= views(listed).push(result@));
                assert(outcomes.map_values(|o: DataAccessResult| written_v(o))
                    =~= before.map_values(|o: DataAccessResult| written_v(o)).push(
                    written_v(outcome),
                ));
                assert(writes_entries(items, given, stores, outcomes));
            }
            i += 1;
        }
        if !confirmed {
            proof {
                let x = ExchangeV {
                    n: N as nat,
                    before: old(out)@,
                    after: out@,
                    next: self@,
                    r: Ok::<usize, Error>(0),
                };
                assert(writes_entries(items, given, stores, outcomes));
                assert(old(self)@.writes_names(
                    old(self).objects(),
                    items,
                    given,
                    confirmed,
                    x,
                    self.objects(),
                ));
            }
            return Ok(0);
        }
        let apdu = Apdu::WriteResponse(WriteResponse { results });
        assert(apdu@ == ApduV::WriteResponse(
            WriteResponseV {
                results: outcomes.map_values(|o: DataAccessResult| written_v(o)),
            },
        ));
        let r = self.send(&apdu, out);
        assert(writes_entries(items, given, stores, outcomes));
        r
    }

    /// Write attributes by short name, confirmed or not.
    pub(super) fn handle_write(
        &mut self,
        entries: &[VariableAccess<'_>],
        values: &[Data<'_>],
        confirmed: bool,
        out: &mut [u8],
    ) -> (r: Result<usize>)
        ensures
            old(self)@.writes_short(
                old(self).objects(),
                views(entries@),
                views(values@),
                confirmed,
                ExchangeV {
                    n: N as nat,
                    before: old(out)@,
                    after: final(out)@,
                    next: final(self)@,
                    r,
                },
                final(self).objects(),
            ),
    {
        if self.state != ServerState::Associated {
            // An unconfirmed write has no reply, so there is nowhere to put a refusal.
            // Saying nothing is the only honest answer; an exception response would be an
            // APDU the client is not reading for.
            if !confirmed {
                return Ok(0);
            }
            return self.not_possible(out);
        }
        let required = if confirmed {
            Conformance::WRITE()
        } else {
            Conformance::UNCONFIRMED_WRITE()
        };
        if !self.negotiated.contains(required) {
            if !confirmed {
                return Ok(0);
            }
            return self.not_supported(out);
        }
        // One value per entry. A request whose lists disagree names writes whose values
        // cannot be found, and pairing what is there writes one attribute's value into
        // another.

        if entries.len() != values.len() || entries.len() == 0 || entries.len() > MAX_ACCESS_ITEMS {
            if !confirmed {
                return Ok(0);
            }
            return self.not_possible(out);
        }
        self.abandon();
        self.write_names(entries, values, confirmed, out)
    }
}

} // verus!
