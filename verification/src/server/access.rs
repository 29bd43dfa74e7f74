//! Reads, writes and invocations in one exchange.

use vstd::prelude::*;

use super::invoke::{run_method, MethodResult};
use super::read::{ask, code_of, note_read, read_answer};
use super::store::{ObjectStore, StoreResult};
use super::write::write_one;
use super::{Server, ServerState};
use crate::axdr::data::Data;
use crate::codec::{extend, Error, ErrorKind, Result, Writer};
use crate::cosem::access::AttributeAccess;
use crate::security::CryptoProvider;
use crate::xdlms::ids::OptionalDateTime;
use crate::xdlms::initiate::Conformance;
use crate::xdlms::list::write_list;
use crate::xdlms::result::{ActionResult, DataAccessResult, ServiceError, StateError};
use crate::xdlms::service::{
    AccessRequest, AccessRequestSpecification, AccessResponseSpecification, AttributeDescriptor,
    MethodDescriptor, SelectiveAccess, MAX_ACCESS_ITEMS,
};
#[allow(unused_imports)]
use super::invoke::{invokes, method_view, parameter_of};
#[allow(unused_imports)]
use super::model::{ExchangeV, ServerV};
#[allow(unused_imports)]
use super::read::{asks, outcome_view, read_noted, read_outcome, told};
#[allow(unused_imports)]
use super::write::{no_room_left, writes_to};
#[allow(unused_imports)]
use crate::axdr::data::DataV;
#[allow(unused_imports)]
use crate::codec::enc_length;
#[allow(unused_imports)]
use crate::xdlms::ids::LongInvokeId;
#[allow(unused_imports)]
use crate::xdlms::list::{enc_list, fits_list, opt_view, views};
#[allow(unused_imports)]
use crate::xdlms::service::{
    AccessRequestSpecificationV, AccessRequestV, AccessResponseSpecificationV,
    AttributeDescriptorV, MethodDescriptorV, SelectiveAccessV,
};

verus! {

/// What one operation adds to a response: a value, and what it came to.
#[verifier::ext_equal]
pub struct EntryV {
    /// The value. Every operation has one, so that the lists line up by position:
    /// `null-data` stands for none.
    pub data: Seq<u8>,
    /// What it came to.
    pub result: AccessResponseSpecificationV,
}

/// What a read adds where so much room is left.
pub open spec fn read_entry(outcome: StoreResult<Seq<u8>>, room: nat) -> EntryV {
    match outcome {
        Ok(v) => EntryV {
            data: v,
            result: AccessResponseSpecificationV::Get(DataAccessResult::Success),
        },
        Err(e) => if room == 0 {
            EntryV {
                data: Seq::empty(),
                result: AccessResponseSpecificationV::Get(DataAccessResult::OtherReason),
            }
        } else {
            EntryV { data: seq![0u8], result: AccessResponseSpecificationV::Get(e) }
        },
    }
}

/// What a write adds where so much room is left.
pub open spec fn write_entry(outcome: DataAccessResult, room: nat) -> EntryV {
    if room == 0 {
        EntryV {
            data: Seq::empty(),
            result: AccessResponseSpecificationV::Write(DataAccessResult::OtherReason),
        }
    } else {
        EntryV { data: seq![0u8], result: AccessResponseSpecificationV::Write(outcome) }
    }
}

/// What an invocation adds where so much room is left; nothing, and no response, where what
/// it adds does not fit.
pub open spec fn action_entry(outcome: MethodResult<Seq<u8>>, room: nat) -> Option<EntryV> {
    match outcome {
        Ok(Some(v)) => Some(
            EntryV { data: v, result: AccessResponseSpecificationV::Action(ActionResult::Success) },
        ),
        Ok(None) => if room == 0 {
            None
        } else {
            Some(
                EntryV {
                    data: seq![0u8],
                    result: AccessResponseSpecificationV::Action(ActionResult::Success),
                },
            )
        },
        Err(e) => if room == 0 {
            None
        } else {
            Some(
                EntryV { data: seq![0u8], result: AccessResponseSpecificationV::Action(e) },
            )
        },
    }
}

/// Whether a read adds this. The store is told what the client is told, unless there is no
/// room to keep the place of a failed read.
pub open spec fn adds_read<S: ObjectStore>(
    before: S,
    d: AttributeDescriptorV,
    access: Option<SelectiveAccessV>,
    room: nat,
    entry: Option<EntryV>,
    after: S,
) -> bool {
    exists|rights: AttributeAccess, written: Seq<u8>, r: StoreResult<()>|
        {
            let outcome = read_outcome(rights, written, r);
            &&& #[trigger] asks(before, d, access, room, rights, written, r)
            &&& entry == Some(read_entry(outcome, room))
            &&& if outcome is Err && room == 0 {
                after == before
            } else {
                read_noted(before, d, told(outcome), after)
            }
        }
}

/// Whether a write may add this.
pub open spec fn adds_write<S: ObjectStore>(
    before: S,
    d: AttributeDescriptorV,
    access: Option<SelectiveAccessV>,
    value: DataV,
    room: nat,
    entry: Option<EntryV>,
    after: S,
) -> bool {
    exists|outcome: DataAccessResult| #[trigger]
        writes_to(before, d, access, value, outcome, after) && entry == Some(
            write_entry(outcome, room),
        )
}

/// Whether an invocation may add this.
pub open spec fn adds_action<S: ObjectStore>(
    before: S,
    d: MethodDescriptorV,
    value: DataV,
    room: nat,
    entry: Option<EntryV>,
    after: S,
) -> bool {
    exists|outcome: MethodResult<Seq<u8>>| #[trigger]
        invokes(before, d, parameter_of(value), room, outcome, after) && entry == action_entry(
            outcome,
            room,
        )
}

/// Whether an operation may add this to a response, with so much room for it, and leave the
/// store like this.
pub open spec fn adds<S: ObjectStore>(
    before: S,
    op: AccessRequestSpecificationV,
    value: DataV,
    room: nat,
    entry: Option<EntryV>,
    after: S,
) -> bool {
    match op {
        AccessRequestSpecificationV::Get(d) => adds_read(before, d, None, room, entry, after),
        AccessRequestSpecificationV::GetWithSelection(d) => adds_read(
            before,
            d.descriptor,
            d.access,
            room,
            entry,
            after,
        ),
        AccessRequestSpecificationV::Write(d) => adds_write(
            before,
            d,
            None,
            value,
            room,
            entry,
            after,
        ),
        AccessRequestSpecificationV::WriteWithSelection(d) => adds_write(
            before,
            d.descriptor,
            d.access,
            value,
            room,
            entry,
            after,
        ),
        AccessRequestSpecificationV::Action(d) => adds_action(
            before,
            d,
            value,
            room,
            entry,
            after,
        ),
    }
}

/// The values of a response, one after the other.
pub open spec fn entries_data(entries: Seq<EntryV>) -> Seq<u8>
    decreases entries.len(),
{
    if entries.len() == 0 {
        Seq::empty()
    } else {
        entries_data(entries.drop_last()) + entries.last().data
    }
}

/// What the operations of a response came to.
pub open spec fn entries_results(entries: Seq<EntryV>) -> Seq<AccessResponseSpecificationV> {
    entries.map_values(|e: EntryV| e.result)
}

/// The room that is left for a value after some.
pub open spec fn room_after(entries: Seq<EntryV>, n: nat) -> nat {
    (n - entries_data(entries).len()) as nat
}

/// Whether the operations of a request may have added these, each to the store as the one
/// before left it.
pub open spec fn adds_each<S: ObjectStore>(
    ops: Seq<AccessRequestSpecificationV>,
    values: Seq<DataV>,
    n: nat,
    stores: Seq<S>,
    entries: Seq<EntryV>,
) -> bool {
    &&& stores.len() == entries.len() + 1
    &&& entries.len() <= ops.len()
    &&& entries_data(entries).len() <= n
    &&& forall|i: int|
        0 <= i < entries.len() ==> adds(
            stores[i],
            ops[i],
            values[i],
            room_after(entries.take(i), n),
            Some(#[trigger] entries[i]),
            stores[i + 1],
        )
}

impl<P: CryptoProvider> ServerV<P> {
    /// What a list of operations comes to that may be asked for. The values are gathered in
    /// so many bytes; where an invocation has to leave a mark and none is left, there is no
    /// reply.
    pub open spec fn accesses_each<S: ObjectStore>(
        self,
        store: S,
        req: AccessRequestV,
        x: ExchangeV<P>,
        after: S,
    ) -> bool {
        exists|stores: Seq<S>, entries: Seq<EntryV>|
            {
                &&& #[trigger] adds_each(req.specification, req.data, x.n, stores, entries)
                &&& stores[0] == store
                &&& if entries.len() == req.specification.len() {
                    &&& stores.last() == after
                    &&& self.sends_plain(access_bytes(req.long_invoke_id, entries), x)
                } else {
                    &&& adds(
                        stores.last(),
                        req.specification[entries.len() as int],
                        req.data[entries.len() as int],
                        room_after(entries, x.n),
                        None,
                        after,
                    )
                    &&& x.next == self
                    &&& x.fails(no_room_left(x.n))
                }
            }
    }

    /// What an ACCESS request comes to. There has to be one value for each operation.
    pub open spec fn accesses<S: ObjectStore>(
        self,
        store: S,
        req: AccessRequestV,
        x: ExchangeV<P>,
        after: S,
    ) -> bool {
        if !(self.state is Associated) {
            after == store && self.not_possible(x)
        } else if !self.agreed(Conformance::ACCESS()) {
            after == store && self.not_supported(x)
        } else if req.specification.len() != req.data.len() {
            after == store && self.not_possible(x)
        } else if req.specification.len() > MAX_ACCESS_ITEMS {
            after == store && self.excepts(
                StateError::ServiceNotAllowed,
                ServiceError::PduTooLong,
                x,
            )
        } else {
            self.idle().accesses_each(store, req, x, after)
        }
    }
}

/// The response to an ACCESS request: without a time, because a server has no clock, and
/// without the operations, because the lists are positional.
pub open spec fn access_bytes(id: LongInvokeId, entries: Seq<EntryV>) -> Seq<u8> {
    seq![0xDAu8] + id.enc() + OptionalDateTime(None).enc() + seq![0u8] + enc_length(entries.len())
        + entries_data(entries) + enc_list::<AccessResponseSpecification>(
        entries_results(entries),
    )
}

/// What one operation adds: its value, and what it came to.
struct Entry {
    data: Vec<u8>,
    result: AccessResponseSpecification,
}

impl View for Entry {
    type V = EntryV;

    closed spec fn view(&self) -> EntryV {
        EntryV { data: self.data@, result: self.result@ }
    }
}

/// One read inside an ACCESS request.
fn read_operation<S: ObjectStore>(
    store: &mut S,
    d: &AttributeDescriptor,
    access: Option<SelectiveAccess<'_>>,
    room: usize,
) -> (entry: Option<Entry>)
    ensures
        adds_read(*old(store), d@, opt_view(access), room as nat, opt_view(entry), *final(store)),
        entry matches Some(e) ==> e@.data.len() <= room,
        entry is Some,
{
    let (rights, written, r) = ask(store, d, access, room);
    let ghost wrote = written@;
    let outcome = read_answer(rights, written, r);
    let ghost came = outcome_view(outcome);
    assert(came == read_outcome(rights, wrote, r));
    let code = code_of(&outcome);
    let entry = match outcome {
        Ok(data) => Entry {
            data,
            result: AccessResponseSpecification::Get(DataAccessResult::Success),
        },
        Err(e) => if room == 0 {
            let lost = Entry {
                data: Vec::new(),
                result: AccessResponseSpecification::Get(DataAccessResult::OtherReason),
            };
            assert(lost@ =~= read_entry(came, 0));
            assert(asks(*old(store), d@, opt_view(access), 0, rights, wrote, r));
            return Some(lost);
        } else {
            // A failed read keeps its position.
            Entry { data: null_data(), result: AccessResponseSpecification::Get(e) }
        },
    };
    assert(entry@ =~= read_entry(came, room as nat));
    note_read(store, d, code);
    assert(asks(*old(store), d@, opt_view(access), room as nat, rights, wrote, r));
    Some(entry)
}

/// One write inside an ACCESS request.
fn write_operation<S: ObjectStore>(
    store: &mut S,
    d: &AttributeDescriptor,
    access: Option<SelectiveAccess<'_>>,
    value: Data<'_>,
    room: usize,
) -> (entry: Option<Entry>)
    ensures
        adds_write(
            *old(store),
            d@,
            opt_view(access),
            value@,
            room as nat,
            opt_view(entry),
            *final(store),
        ),
        entry matches Some(e) ==> e@.data.len() <= room,
        entry is Some,
{
    let outcome = write_one(store, d, access, value);
    // A write produces no value, and the lists are positional.
    let entry = if room == 0 {
        Entry {
            data: Vec::new(),
            result: AccessResponseSpecification::Write(DataAccessResult::OtherReason),
        }
    } else {
        Entry { data: null_data(), result: AccessResponseSpecification::Write(outcome) }
    };
    assert(entry@ =~= write_entry(outcome, room as nat));
    assert(writes_to(*old(store), d@, opt_view(access), value@, outcome, *store));
    Some(entry)
}

/// One invocation inside an ACCESS request.
fn action_operation<S: ObjectStore>(
    store: &mut S,
    d: &MethodDescriptor,
    value: Data<'_>,
    room: usize,
) -> (entry: Option<Entry>)
    ensures
        adds_action(*old(store), d@, value@, room as nat, opt_view(entry), *final(store)),
        entry matches Some(e) ==> e@.data.len() <= room,
{
    // A method's parameter is the data-list entry at its position, and `null-data` there
    // means the method takes none.
    let parameters = match value {
        Data::Null => None,
        v => Some(v),
    };
    assert(opt_view(parameters) == parameter_of(value@));
    let outcome = run_method(store, d, parameters, room);
    let ghost came = method_view(outcome);
    let entry = match outcome {
        Ok(Some(data)) => Some(
            Entry { data, result: AccessResponseSpecification::Action(ActionResult::Success) },
        ),
        // Nothing returned, but the lists stay aligned by position.
        Ok(None) => if room == 0 {
            None
        } else {
            Some(
                Entry {
                    data: null_data(),
                    result: AccessResponseSpecification::Action(ActionResult::Success),
                },
            )
        },
        Err(e) => if room == 0 {
            None
        } else {
            Some(Entry { data: null_data(), result: AccessResponseSpecification::Action(e) })
        },
    };
    assert(opt_view(entry) =~= action_entry(came, room as nat));
    assert(invokes(*old(store), d@, parameter_of(value@), room as nat, came, *store));
    entry
}

/// The encoding of `null-data`.
fn null_data() -> (v: Vec<u8>)
    ensures
        v@ == seq![0u8],
{
    let mut v: Vec<u8> = Vec::new();
    v.push(0);
    v
}

/// One operation of an ACCESS request.
fn operation<S: ObjectStore>(
    store: &mut S,
    op: &AccessRequestSpecification<'_>,
    value: Data<'_>,
    room: usize,
) -> (entry: Option<Entry>)
    ensures
        adds(*old(store), op@, value@, room as nat, opt_view(entry), *final(store)),
        entry matches Some(e) ==> e@.data.len() <= room,
{
    match op {
        AccessRequestSpecification::Get(d) => read_operation(store, d, None, room),
        AccessRequestSpecification::GetWithSelection(d) => read_operation(
            store,
            &d.descriptor,
            d.access,
            room,
        ),
        AccessRequestSpecification::Write(d) => write_operation(store, d, None, value, room),
        AccessRequestSpecification::WriteWithSelection(d) => write_operation(
            store,
            &d.descriptor,
            d.access,
            value,
            room,
        ),
        AccessRequestSpecification::Action(d) => action_operation(store, d, value, room),
    }
}

impl<S: ObjectStore, P: CryptoProvider, const N: usize> Server<S, P, N> {
    #[verifier::loop_isolation(false)]
    fn access_each(&mut self, req: &AccessRequest<'_>, out: &mut [u8]) -> (r: Result<usize>)
        requires
            req@.specification.len() == req@.data.len() <= MAX_ACCESS_ITEMS,
        ensures
            old(self)@.accesses_each(
                old(self).objects(),
                req@,
                ExchangeV {
                    n: N as nat,
                    before: old(out)@,
                    after: final(out)@,
                    next: final(self)@,
                    r,
                },
                final(self).objects(),
            ),
    {
        // Two lists are produced side by side: the values, and one outcome per entry. They
        // interleave on neither side, so they are built separately.
        let mut data: Vec<u8> = Vec::new();
        let mut results: Vec<AccessResponseSpecification> = Vec::new();
        let mut i: usize = 0;
        let ghost mut stores: Seq<S> = seq![self.objects()];
        let ghost mut entries: Seq<EntryV> = Seq::empty();
        let ghost ops = req@.specification;
        let ghost values = req@.data;
        assert(views(results@) =~= entries_results(entries));
        while i < req.specification.len()
            invariant
                i <= ops.len(),
                self@ == old(self)@,
                entries.len() == i,
                adds_each(ops, values, N as nat, stores, entries),
                stores[0] == old(self).objects(),
                stores.last() == self.objects(),
                data@ == entries_data(entries),
                views(results@) == entries_results(entries),
                results@.len() == i,
            decreases ops.len() - i,
        {
            let room: usize = N - data.len();
            let op = req.specification[i];
            let value = req.data[i];
            assert(ops[i as int] == op@ && values[i as int] == value@);
            let ghost asked = self.objects();
            match operation(&mut self.store, &op, value, room) {
                None => {
                    proof {
                        let x = ExchangeV {
                            n: N as nat,
                            before: old(out)@,
                            after: out@,
                            next: self@,
                            r: Err::<usize, Error>(no_room_left(N as nat)),
                        };
                        assert(adds_each(ops, values, x.n, stores, entries));
                        assert(old(self)@.accesses_each(
                            old(self).objects(),
                            req@,
                            x,
                            self.objects(),
                        ));
                    }
                    return Err(Error::new(ErrorKind::BufferTooSmall { needed: 1 }, N));
                },
                Some(entry) => {
                    extend(&mut data, entry.data.as_slice());
                    let ghost listed = results@;
                    results.push(entry.result);
                    proof {
                        let before = entries;
                        let held = stores;
                        stores = stores.push(self.objects());
                        entries = entries.push(entry@);
                        assert(entries.drop_last() =~= before);
                        assert(data@ == entries_data(entries));
                        assert(views(results@) =~= views(listed).push(entry@.result));
                        assert(entries_results(entries) =~= entries_results(before).push(
                            entry@.result,
                        ));
                        assert forall|j: int| 0 <= j < entries.len() implies adds(
                            stores[j],
                            ops[j],
                            values[j],
                            room_after(entries.take(j), N as nat),
                            Some(#[trigger] entries[j]),
                            stores[j + 1],
                        ) by {
                            assert(entries.take(j) =~= before.take(j));
                            if j < before.len() {
                                assert(entries[j] == before[j]);
                                assert(stores[j] == held[j] && stores[j + 1] == held[j + 1]);
                            } else {
                                assert(before.take(j) =~= before);
                            }
                        }
                        assert(adds_each(ops, values, N as nat, stores, entries));
                    }
                },
            }
            i += 1;
        }
        let mut plain: Vec<u8> = Vec::new();
        plain.push(0xDA);
        req.long_invoke_id.write(&mut plain)?;
        OptionalDateTime(None).write(&mut plain)?;
        plain.push(0);
        plain.write_length(req.specification.len())?;
        extend(&mut plain, data.as_slice());
        proof {
            lemma_results_fit(views(results@));
        }
        write_list(&mut plain, &results)?;
        assert(plain@ =~= access_bytes(req@.long_invoke_id, entries));
        let r = self.send_plain(plain.as_slice(), out);
        assert(adds_each(ops, values, N as nat, stores, entries));
        r
    }

    /// Handle an ACCESS request.
    ///
    /// The specification list says what to do and the data list says with what, one entry
    /// each in the same order: an operation that takes no value has a `null-data` there.
    /// The response is built the same way, so the three lists line up by position and a
    /// client never has to count which entries produced data.
    pub(super) fn handle_access(&mut self, req: &AccessRequest<'_>, out: &mut [u8]) -> (r: Result<
        usize,
    >)
        ensures
            old(self)@.accesses(
                old(self).objects(),
                req@,
                ExchangeV {
                    n: N as nat,
                    before: old(out)@,
                    after: final(out)@,
                    next: final(self)@,
                    r,
                },
                final(self).objects(),
            ),
    {
        if self.state != ServerState::Associated {
            return self.not_possible(out);
        }
        if !self.negotiated.contains(Conformance::ACCESS()) {
            return self.not_supported(out);
        }
        // One data entry per specification entry — that is the whole alignment rule, and
        // a request where the two lists disagree names operations whose values cannot be
        // found. Pairing what is there and guessing at the rest is how a meter writes one
        // attribute's value into another.

        if req.specification.len() != req.data.len() {
            return self.not_possible(out);
        }
        if req.specification.len() > MAX_ACCESS_ITEMS {
            return self.exception(StateError::ServiceNotAllowed, ServiceError::PduTooLong, out);
        }
        self.abandon();
        self.access_each(req, out)
    }
}

/// What operations came to can always be written down.
proof fn lemma_results_fit(s: Seq<AccessResponseSpecificationV>)
    requires
        s.len() <= MAX_ACCESS_ITEMS,
    ensures
        fits_list::<AccessResponseSpecification>(s),
{
}

} // verus!
