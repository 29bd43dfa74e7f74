//! Writing attributes by logical name.

use vstd::prelude::*;

use super::store::{give_value, tell, AuditEvent, ObjectStore, StoreResult};
use super::{Server, ServerState, SetTarget, Transfer};
use crate::axdr::data::Data;
use crate::codec::{extend, BoundedWriter, Decode, Encode, Error, ErrorKind, Result, Writer};
use crate::cosem::access::AttributeAccess;
use crate::security::CryptoProvider;
use crate::xdlms::apdu::Apdu;
use crate::xdlms::ids::InvokeId;
use crate::xdlms::initiate::Conformance;
use crate::xdlms::list::{whole_list, write_items};
use crate::xdlms::result::DataAccessResult;
use crate::xdlms::service::{
    AttributeDescriptor, AttributeDescriptorWithSelection, DataBlockSA, SelectiveAccess,
    SetRequest, SetResponse, MAX_ACCESS_ITEMS,
};
#[allow(unused_imports)]
use super::model::{next_number, set_v, ExchangeV, ServerV, SetTargetV, TransferV};
#[allow(unused_imports)]
use super::read::told;
#[allow(unused_imports)]
use super::store::{grants, noted, takes};
#[allow(unused_imports)]
use crate::axdr::data::{p_data, DataV};
#[allow(unused_imports)]
use crate::codec::{whole, Cursor};
#[allow(unused_imports)]
use crate::obis::{lemma_name_of, name_of};
#[allow(unused_imports)]
use crate::xdlms::apdu::ApduV;
#[allow(unused_imports)]
use crate::xdlms::list::{enc_list, fits_list, opt_view, p_list, views};
#[allow(unused_imports)]
use crate::xdlms::service::{
    AttributeDescriptorV, AttributeDescriptorWithSelectionV, DataBlockSAV, SelectiveAccessV,
    SetRequestV, SetResponseV,
};

verus! {

/// What a client is told of a write: the rights come first.
pub open spec fn write_outcome(rights: AttributeAccess, r: StoreResult<()>) -> DataAccessResult {
    if rights.can_write() {
        told(r)
    } else {
        DataAccessResult::ReadWriteDenied
    }
}

/// Whether handing a value to a store comes to this: it is handed over where the store
/// grants the right, and only there.
pub open spec fn puts<S: ObjectStore>(
    before: S,
    d: AttributeDescriptorV,
    access: Option<SelectiveAccessV>,
    value: DataV,
    rights: AttributeAccess,
    r: StoreResult<()>,
    after: S,
) -> bool {
    if rights.can_write() {
        takes(before, d, access, value, r, after)
    } else {
        after == before
    }
}

/// The record of a write.
pub open spec fn write_noted<S: ObjectStore>(
    before: S,
    d: AttributeDescriptorV,
    outcome: DataAccessResult,
    after: S,
) -> bool {
    noted(
        before,
        AuditEvent::AttributeWritten {
            class_id: d.class_id,
            logical_name: name_of(d.instance_id),
            attribute_id: d.attribute_id,
            outcome,
        },
        after,
    )
}

/// Whether writing an attribute of a store comes to this and leaves it like this: the store
/// is asked for the rights, handed the value where it grants them, and told what the client
/// is told.
pub open spec fn writes_to<S: ObjectStore>(
    before: S,
    d: AttributeDescriptorV,
    access: Option<SelectiveAccessV>,
    value: DataV,
    outcome: DataAccessResult,
    after: S,
) -> bool {
    exists|rights: AttributeAccess, r: StoreResult<()>, held: S|
        {
            &&& grants(before, d, rights)
            &&& #[trigger] puts(before, d, access, value, rights, r, held)
            &&& outcome == write_outcome(rights, r)
            &&& write_noted(held, d, outcome, after)
        }
}

/// Whether writing several attributes may come to these outcomes, each to the store as the
/// one before left it.
pub open spec fn writes_each<S: ObjectStore>(
    items: Seq<AttributeDescriptorWithSelectionV>,
    values: Seq<DataV>,
    stores: Seq<S>,
    outcomes: Seq<DataAccessResult>,
) -> bool {
    &&& stores.len() == outcomes.len() + 1
    &&& outcomes.len() <= items.len()
    &&& forall|i: int|
        0 <= i < outcomes.len() ==> writes_to(
            stores[i],
            items[i].descriptor,
            items[i].access,
            values[i],
            #[trigger] outcomes[i],
            stores[i + 1],
        )
}

/// The refusal of one more byte in a buffer of so many that is full.
pub open spec fn no_room_left(n: nat) -> Error {
    Error { kind: ErrorKind::BufferTooSmall { needed: 1 }, offset: n as usize }
}

/// The answer to the last block of a write.
pub open spec fn last_block_v(
    invoke_id: InvokeId,
    result: DataAccessResult,
    block_number: u32,
) -> ApduV {
    ApduV::SetResponse(SetResponseV::LastDataBlock { invoke_id, result, block_number })
}

/// The selector that was kept of the first block.
pub open spec fn kept_access(bytes: Seq<u8>) -> Result<Option<SelectiveAccessV>> {
    if bytes.len() == 0 {
        Ok(None)
    } else {
        match whole(SelectiveAccessV::p(Cursor::start(bytes))) {
            Ok(a) => Ok(Some(a)),
            Err(e) => Err(e),
        }
    }
}

impl<P: CryptoProvider> ServerV<P> {
    /// What writing one attribute comes to.
    pub open spec fn sets_one<S: ObjectStore>(
        self,
        store: S,
        invoke_id: InvokeId,
        d: AttributeDescriptorV,
        access: Option<SelectiveAccessV>,
        value: DataV,
        x: ExchangeV<P>,
        after: S,
    ) -> bool {
        exists|outcome: DataAccessResult| #[trigger]
            writes_to(store, d, access, value, outcome, after) && self.sends(
                set_v(invoke_id, outcome),
                x,
            )
    }

    /// What writing one attribute comes to whose value came in blocks.
    pub open spec fn sets_last<S: ObjectStore>(
        self,
        store: S,
        invoke_id: InvokeId,
        d: AttributeDescriptorV,
        access: Option<SelectiveAccessV>,
        value: DataV,
        number: u32,
        x: ExchangeV<P>,
        after: S,
    ) -> bool {
        exists|outcome: DataAccessResult| #[trigger]
            writes_to(store, d, access, value, outcome, after) && self.sends(
                last_block_v(invoke_id, outcome, number),
                x,
            )
    }

    /// What writing several attributes comes to. There is one byte for each result in what a
    /// reply is built in; where those run out, no more are written and there is no reply.
    pub open spec fn sets_each<S: ObjectStore>(
        self,
        store: S,
        invoke_id: InvokeId,
        items: Seq<AttributeDescriptorWithSelectionV>,
        values: Seq<DataV>,
        x: ExchangeV<P>,
        after: S,
    ) -> bool {
        exists|stores: Seq<S>, outcomes: Seq<DataAccessResult>|
            {
                &&& #[trigger] writes_each(items, values, stores, outcomes)
                &&& stores[0] == store
                &&& stores.last() == after
                &&& if outcomes.len() <= x.n {
                    &&& outcomes.len() == items.len()
                    &&& self.sends(
                        ApduV::SetResponse(
                            SetResponseV::WithList { invoke_id, results: outcomes },
                        ),
                        x,
                    )
                } else {
                    &&& outcomes.len() == x.n + 1
                    &&& x.next == self
                    &&& x.fails(no_room_left(x.n))
                }
            }
    }

    /// What writing several attributes comes to whose values came in blocks.
    pub open spec fn sets_each_last<S: ObjectStore>(
        self,
        store: S,
        invoke_id: InvokeId,
        items: Seq<AttributeDescriptorWithSelectionV>,
        values: Seq<DataV>,
        number: u32,
        x: ExchangeV<P>,
        after: S,
    ) -> bool {
        exists|stores: Seq<S>, outcomes: Seq<DataAccessResult>|
            {
                &&& #[trigger] writes_each(items, values, stores, outcomes)
                &&& stores[0] == store
                &&& stores.last() == after
                &&& outcomes.len() == items.len()
                &&& self.sends(
                    ApduV::SetResponse(
                        SetResponseV::LastDataBlockWithList {
                            invoke_id,
                            results: outcomes,
                            block_number: number,
                        },
                    ),
                    x,
                )
            }
    }

    /// What the end of a write comes to whose value came in blocks: decoding happens once,
    /// over the concatenation.
    pub open spec fn ends_set<S: ObjectStore>(
        self,
        store: S,
        invoke_id: InvokeId,
        target: SetTargetV,
        value: Seq<u8>,
        number: u32,
        x: ExchangeV<P>,
        after: S,
    ) -> bool {
        match target {
            SetTargetV::One(d, bytes) => match kept_access(bytes) {
                Err(e) => after == store && x.next == self && x.fails(e),
                Ok(access) => match whole(p_data(Cursor::start(value), 0)) {
                    Err(e) => after == store && x.next == self && x.fails(e),
                    Ok(v) => self.sets_last(store, invoke_id, d, access, v, number, x, after),
                },
            },
            SetTargetV::Many(bytes) => match whole(
                p_list::<AttributeDescriptorWithSelection>(Cursor::start(bytes)),
            ) {
                Err(e) => after == store && x.next == self && x.fails(e),
                Ok(items) => match whole(p_list::<Data>(Cursor::start(value))) {
                    Err(e) => after == store && x.next == self && x.fails(e),
                    Ok(values) => if items.len() != values.len() {
                        after == store && self.sends(
                            set_v(invoke_id, DataAccessResult::TypeUnmatched),
                            x,
                        )
                    } else {
                        self.sets_each_last(store, invoke_id, items, values, number, x, after)
                    },
                },
            },
        }
    }

    /// What a block of a write comes to. Blocks have to arrive in order, under the
    /// invocation that the write began with, and to fit in what is kept of them.
    pub open spec fn takes_set<S: ObjectStore>(
        self,
        store: S,
        invoke_id: InvokeId,
        block: DataBlockSAV,
        x: ExchangeV<P>,
        after: S,
    ) -> bool {
        match self.transfer {
            TransferV::ReceivingSet { invoke_id: id, target, value, block: last } => {
                let so_far = value + block.raw_data;
                if invoke_id != id || block.block_number != next_number(last) {
                    after == store && self.idle().sends(
                        set_v(invoke_id, DataAccessResult::DataBlockNumberInvalid),
                        x,
                    )
                } else if target.header().len() + so_far.len() > x.n {
                    after == store && self.idle().sends(
                        set_v(invoke_id, DataAccessResult::LongSetAborted),
                        x,
                    )
                } else if block.last_block {
                    self.idle().ends_set(
                        store,
                        invoke_id,
                        target,
                        so_far,
                        block.block_number,
                        x,
                        after,
                    )
                } else {
                    after == store && ServerV {
                        transfer: TransferV::ReceivingSet {
                            invoke_id,
                            target,
                            value: so_far,
                            block: block.block_number,
                        },
                        ..self
                    }.sends(
                        ApduV::SetResponse(
                            SetResponseV::DataBlock {
                                invoke_id,
                                block_number: block.block_number,
                            },
                        ),
                        x,
                    )
                }
            },
            _ => after == store && self.sends(
                set_v(invoke_id, DataAccessResult::NoLongSetInProgress),
                x,
            ),
        }
    }

    /// The server once a write has begun whose value comes in blocks.
    pub open spec fn receiving_set(self, invoke_id: InvokeId, target: SetTargetV) -> ServerV<P> {
        ServerV {
            transfer: TransferV::ReceivingSet {
                invoke_id,
                target,
                value: Seq::empty(),
                block: 0,
            },
            ..self
        }
    }

    /// What the first block of a write comes to, once the store has said what may be done.
    pub open spec fn begins_set_with<S: ObjectStore>(
        self,
        store: S,
        invoke_id: InvokeId,
        d: AttributeDescriptorV,
        access: Option<SelectiveAccessV>,
        block: DataBlockSAV,
        rights: AttributeAccess,
        x: ExchangeV<P>,
        after: S,
    ) -> bool {
        let kept = match access {
            Some(a) => a.enc(),
            None => Seq::empty(),
        };
        if !rights.can_write() {
            &&& write_noted(store, d, DataAccessResult::ReadWriteDenied, after)
            &&& self.sends(
                last_block_v(invoke_id, DataAccessResult::ReadWriteDenied, block.block_number),
                x,
            )
        } else if (access matches Some(a) && !a.fits()) || kept.len() > x.n {
            after == store && x.next == self && x.unbuilt(
                kept,
                access matches Some(a) ==> a.fits(),
                x.n,
            )
        } else {
            self.receiving_set(invoke_id, SetTargetV::One(d, kept)).takes_set(
                store,
                invoke_id,
                block,
                x,
                after,
            )
        }
    }

    /// What the first block of a write comes to that may come in blocks. Rights are checked
    /// at once: a client with no write access cannot make the server hold a buffer for it.
    pub open spec fn begins_set<S: ObjectStore>(
        self,
        store: S,
        invoke_id: InvokeId,
        d: AttributeDescriptorV,
        access: Option<SelectiveAccessV>,
        block: DataBlockSAV,
        x: ExchangeV<P>,
        after: S,
    ) -> bool {
        exists|rights: AttributeAccess|
            #![trigger grants(store, d, rights)]
            grants(store, d, rights) && self.begins_set_with(
                store,
                invoke_id,
                d,
                access,
                block,
                rights,
                x,
                after,
            )
    }

    /// What the first block of a write of several attributes comes to.
    pub open spec fn begins_set_list<S: ObjectStore>(
        self,
        store: S,
        invoke_id: InvokeId,
        items: Seq<AttributeDescriptorWithSelectionV>,
        block: DataBlockSAV,
        x: ExchangeV<P>,
        after: S,
    ) -> bool {
        let list = enc_list::<AttributeDescriptorWithSelection>(items);
        if !self.agreed(Conformance::MULTIPLE_REFERENCES()) || !self.agreed(
            Conformance::BLOCK_TRANSFER_WITH_SET_OR_WRITE(),
        ) {
            after == store && self.sends(
                set_v(invoke_id, DataAccessResult::DataBlockUnavailable),
                x,
            )
        } else if items.len() > MAX_ACCESS_ITEMS {
            after == store && self.sends(set_v(invoke_id, DataAccessResult::OtherReason), x)
        } else if !fits_list::<AttributeDescriptorWithSelection>(items) || list.len() > x.n {
            after == store && x.next == self && x.unbuilt(
                list,
                fits_list::<AttributeDescriptorWithSelection>(items),
                x.n,
            )
        } else {
            self.receiving_set(invoke_id, SetTargetV::Many(list)).takes_set(
                store,
                invoke_id,
                block,
                x,
                after,
            )
        }
    }

    /// What a SET request comes to.
    pub open spec fn sets<S: ObjectStore>(
        self,
        store: S,
        req: SetRequestV,
        x: ExchangeV<P>,
        after: S,
    ) -> bool {
        if !(self.state is Associated) {
            after == store && self.not_possible(x)
        } else if !self.agreed(Conformance::SET()) {
            after == store && self.not_supported(x)
        } else {
            match req {
                SetRequestV::Normal { invoke_id, descriptor, access, value } =>
                self.idle().sets_one(store, invoke_id, descriptor, access, value, x, after),
                SetRequestV::WithFirstDataBlock { invoke_id, descriptor, access, block } =>
                if !self.agreed(Conformance::BLOCK_TRANSFER_WITH_SET_OR_WRITE()) {
                    after == store && self.idle().sends(
                        set_v(invoke_id, DataAccessResult::DataBlockUnavailable),
                        x,
                    )
                } else {
                    self.idle().begins_set(store, invoke_id, descriptor, access, block, x, after)
                },
                SetRequestV::WithDataBlock { invoke_id, block } => self.takes_set(
                    store,
                    invoke_id,
                    block,
                    x,
                    after,
                ),
                SetRequestV::WithList { invoke_id, descriptors, values } => if !self.agreed(
                    Conformance::MULTIPLE_REFERENCES(),
                ) {
                    after == store && self.not_supported(x)
                } else if descriptors.len() != values.len() {
                    after == store && self.not_possible(x)
                } else {
                    self.idle().sets_each(store, invoke_id, descriptors, values, x, after)
                },
                SetRequestV::WithListAndFirstDataBlock { invoke_id, descriptors, block } =>
                self.idle().begins_set_list(store, invoke_id, descriptors, block, x, after),
            }
        }
    }
}

/// What a client is told of a write, given the rights and what the store answered.
#[must_use]
pub fn write_answer(rights: AttributeAccess, r: StoreResult<()>) -> (outcome: DataAccessResult)
    ensures
        outcome == write_outcome(rights, r),
{
    if !rights.can_write() {
        return DataAccessResult::ReadWriteDenied;
    }
    match r {
        Ok(_) => DataAccessResult::Success,
        Err(e) => e,
    }
}

/// Perform one write, enforcing access rights and recording the outcome.
pub(super) fn write_one<S: ObjectStore>(
    store: &mut S,
    d: &AttributeDescriptor,
    access: Option<SelectiveAccess<'_>>,
    value: Data<'_>,
) -> (outcome: DataAccessResult)
    ensures
        writes_to(*old(store), d@, opt_view(access), value@, outcome, *final(store)),
{
    proof {
        lemma_name_of(d.instance_id);
    }
    let rights = store.attribute_access(d.class_id, d.instance_id, d.attribute_id);
    assert(grants(*store, d@, rights));
    let r: StoreResult<()> = if rights.can_write() {
        let (r, _) = give_value(store, d, access, value);
        assert(takes(*old(store), d@, opt_view(access), value@, r, *store));
        r
    } else {
        Ok(())
    };
    assert(puts(*old(store), d@, opt_view(access), value@, rights, r, *store));
    let outcome = write_answer(rights, r);
    tell(
        store,
        AuditEvent::AttributeWritten {
            class_id: d.class_id,
            logical_name: d.instance_id,
            attribute_id: d.attribute_id,
            outcome,
        },
    );
    outcome
}

/// Write several attributes, one result each, until there is one more than fits.
#[verifier::loop_isolation(false)]
fn write_each<S: ObjectStore>(
    store: &mut S,
    items: &[AttributeDescriptorWithSelection<'_>],
    values: &[Data<'_>],
    room: usize,
) -> (outcomes: Vec<DataAccessResult>)
    requires
        items@.len() == values@.len(),
    ensures
        exists|stores: Seq<S>|
            {
                &&& #[trigger] writes_each(views(items@), views(values@), stores, outcomes@)
                &&& stores[0] == *old(store)
                &&& stores.last() == *final(store)
            },
        outcomes@.len() <= room ==> outcomes@.len() == items@.len(),
        outcomes@.len() <= room + 1,
{
    let mut outcomes: Vec<DataAccessResult> = Vec::new();
    let mut i: usize = 0;
    let ghost mut stores: Seq<S> = seq![*store];
    let ghost all = views(items@);
    let ghost given = views(values@);
    while i < items.len() && outcomes.len() <= room
        invariant
            i <= items@.len(),
            outcomes@.len() == i,
            i <= room + 1,
            writes_each(all, given, stores, outcomes@),
            stores[0] == *old(store),
            stores.last() == *store,
        decreases items@.len() - i,
    {
        let item = items[i];
        assert(all[i as int] == item@);
        assert(given[i as int] == values@[i as int]@);
        let ghost asked = *store;
        let ghost before = outcomes@;
        let outcome = write_one(store, &item.descriptor, item.access, values[i]);
        outcomes.push(outcome);
        proof {
            assert(writes_to(
                asked,
                all[i as int].descriptor,
                all[i as int].access,
                given[i as int],
                outcome,
                *store,
            ));
            stores = stores.push(*store);
            assert(writes_each(all, given, stores, outcomes@));
        }
        i += 1;
    }
    outcomes
}

impl<S: ObjectStore, P: CryptoProvider, const N: usize> Server<S, P, N> {
    fn set_last_block(
        &mut self,
        invoke_id: InvokeId,
        result: DataAccessResult,
        block_number: u32,
        out: &mut [u8],
    ) -> (r: Result<usize>)
        ensures
            old(self)@.sends(
                last_block_v(invoke_id, result, block_number),
                ExchangeV {
                    n: N as nat,
                    before: old(out)@,
                    after: final(out)@,
                    next: final(self)@,
                    r,
                },
            ),
            final(self).objects() == old(self).objects(),
    {
        let response = SetResponse::LastDataBlock { invoke_id, result, block_number };
        self.send(&Apdu::SetResponse(response), out)
    }

    /// Write one attribute and answer.
    fn set_one(
        &mut self,
        invoke_id: InvokeId,
        descriptor: AttributeDescriptor,
        access: Option<SelectiveAccess<'_>>,
        value: Data<'_>,
        out: &mut [u8],
    ) -> (r: Result<usize>)
        ensures
            old(self)@.sets_one(
                old(self).objects(),
                invoke_id,
                descriptor@,
                opt_view(access),
                value@,
                ExchangeV {
                    n: N as nat,
                    before: old(out)@,
                    after: final(out)@,
                    next: final(self)@,
                    r,
                },
                final(self).objects(),
            ),
    {
        let outcome = write_one(&mut self.store, &descriptor, access, value);
        assert(self@ == old(self)@);
        let ghost after = self.objects();
        let r = self.set_error(invoke_id, outcome, out);
        assert(writes_to(
            old(self).objects(),
            descriptor@,
            opt_view(access),
            value@,
            outcome,
            after,
        ));
        r
    }

    /// Write several attributes in one exchange, one result each.
    fn set_each(
        &mut self,
        invoke_id: InvokeId,
        items: &[AttributeDescriptorWithSelection<'_>],
        values: &[Data<'_>],
        out: &mut [u8],
    ) -> (r: Result<usize>)
        requires
            items@.len() == values@.len(),
        ensures
            old(self)@.sets_each(
                old(self).objects(),
                invoke_id,
                views(items@),
                views(values@),
                ExchangeV {
                    n: N as nat,
                    before: old(out)@,
                    after: final(out)@,
                    next: final(self)@,
                    r,
                },
                final(self).objects(),
            ),
    {
        let results = write_each(&mut self.store, items, values, N);
        assert(self@ == old(self)@);
        let ghost outcomes = results@;
        let ghost stores = choose|stores: Seq<S>|
            {
                &&& #[trigger] writes_each(views(items@), views(values@), stores, outcomes)
                &&& stores[0] == old(self).objects()
                &&& stores.last() == self.objects()
            };
        assert(views(results@) =~= outcomes);
        if results.len() > N {
            let r: Result<usize> = Err(Error::new(ErrorKind::BufferTooSmall { needed: 1 }, N));
            assert(writes_each(views(items@), views(values@), stores, outcomes));
            return r;
        }
        let r = self.send(
            &Apdu::SetResponse(SetResponse::WithList { invoke_id, results }),
            out,
        );
        assert(writes_each(views(items@), views(values@), stores, outcomes));
        r
    }

    /// The last block of a batched write: pair the stored attribute list with the
    /// reassembled value list and answer with one result per attribute.
    fn set_each_last(
        &mut self,
        invoke_id: InvokeId,
        items: &[AttributeDescriptorWithSelection<'_>],
        values: &[Data<'_>],
        block_number: u32,
        out: &mut [u8],
    ) -> (r: Result<usize>)
        requires
            items@.len() == values@.len(),
        ensures
            old(self)@.sets_each_last(
                old(self).objects(),
                invoke_id,
                views(items@),
                views(values@),
                block_number,
                ExchangeV {
                    n: N as nat,
                    before: old(out)@,
                    after: final(out)@,
                    next: final(self)@,
                    r,
                },
                final(self).objects(),
            ),
    {
        let results = write_each(&mut self.store, items, values, items.len());
        assert(self@ == old(self)@);
        let ghost outcomes = results@;
        let ghost stores = choose|stores: Seq<S>|
            {
                &&& #[trigger] writes_each(views(items@), views(values@), stores, outcomes)
                &&& stores[0] == old(self).objects()
                &&& stores.last() == self.objects()
            };
        assert(views(results@) =~= outcomes);
        let r = self.send(
            &Apdu::SetResponse(
                SetResponse::LastDataBlockWithList { invoke_id, results, block_number },
            ),
            out,
        );
        assert(writes_each(views(items@), views(values@), stores, outcomes));
        r
    }

    /// The end of a write whose value came in blocks.
    ///
    /// Decoding happens once, over the concatenation: a fragment boundary falls
    /// wherever the client's buffer ran out, which is very often inside a length
    /// prefix, so no fragment is decodable on its own.
    fn end_set(
        &mut self,
        invoke_id: InvokeId,
        target: SetTarget,
        value: &[u8],
        number: u32,
        out: &mut [u8],
    ) -> (r: Result<usize>)
        ensures
            old(self)@.ends_set(
                old(self).objects(),
                invoke_id,
                target@,
                value@,
                number,
                ExchangeV {
                    n: N as nat,
                    before: old(out)@,
                    after: final(out)@,
                    next: final(self)@,
                    r,
                },
                final(self).objects(),
            ),
    {
        match target {
            SetTarget::One(descriptor, kept) => {
                let ghost k = kept@;
                let access = if kept.len() == 0 {
                    None
                } else {
                    assert(SelectiveAccess::parse(Cursor::start(k)) == SelectiveAccessV::p(
                        Cursor::start(k),
                    ));
                    Some(SelectiveAccess::from_bytes(kept.as_slice())?)
                };
                assert(kept_access(k) == Ok::<Option<SelectiveAccessV>, Error>(opt_view(access)));
                let v = Data::from_bytes_in(value)?;
                let outcome = write_one(&mut self.store, &descriptor, access, v);
                assert(self@ == old(self)@);
                let ghost after = self.objects();
                let r = self.set_last_block(invoke_id, outcome, number, out);
                assert(writes_to(
                    old(self).objects(),
                    descriptor@,
                    opt_view(access),
                    v@,
                    outcome,
                    after,
                ));
                r
            },
            SetTarget::Many(list) => {
                let items = whole_list::<AttributeDescriptorWithSelection<'_>>(list.as_slice())?;
                let values = whole_list::<Data<'_>>(value)?;
                if items.len() != values.len() {
                    // The two lists were sent by the same client in the same invocation, so
                    // this is not an attack — it is a request that names writes whose values
                    // cannot be found, and pairing what is there would write the wrong value
                    // to the wrong object.
                    return self.set_error(invoke_id, DataAccessResult::TypeUnmatched, out);
                }
                self.set_each_last(invoke_id, items.as_slice(), values.as_slice(), number, out)
            },
        }
    }

    /// A further block of a long SET — and the first one too, which is the same work.
    fn continue_blocked_set(
        &mut self,
        invoke_id: InvokeId,
        block: &DataBlockSA<'_>,
        out: &mut [u8],
    ) -> (r: Result<usize>)
        ensures
            old(self)@.takes_set(
                old(self).objects(),
                invoke_id,
                block@,
                ExchangeV {
                    n: N as nat,
                    before: old(out)@,
                    after: final(out)@,
                    next: final(self)@,
                    r,
                },
                final(self).objects(),
            ),
    {
        if !matches!(self.transfer, Transfer::ReceivingSet { .. }) {
            return self.set_error(invoke_id, DataAccessResult::NoLongSetInProgress, out);
        }
        let mut transfer = Transfer::Idle;
        core::mem::swap(&mut self.transfer, &mut transfer);
        assert(transfer@ == old(self)@.transfer);
        assert(self@ == old(self)@.idle());
        match transfer {
            Transfer::ReceivingSet { invoke_id: id, target, value, block: last } => {
                // Blocks must arrive in order under the invoke id the transfer opened with.
                // A fragment concatenated in the wrong place usually still decodes, into a
                // value that is simply wrong — and this one is a *write*.
                if invoke_id != id || block.block_number != last.saturating_add(1) {
                    return self.set_error(
                        invoke_id,
                        DataAccessResult::DataBlockNumberInvalid,
                        out,
                    );
                }
                let header: usize = match &target {
                    SetTarget::One(_, access) => access.len(),
                    SetTarget::Many(list) => list.len(),
                };
                assert(header == target@.header().len());
                let mut so_far = value;
                let ghost before = so_far@;
                let room: usize = N.saturating_sub(header).saturating_sub(so_far.len());
                if header > N || so_far.len() > N - header || block.raw_data.len() > room {
                    return self.set_error(invoke_id, DataAccessResult::LongSetAborted, out);
                }
                extend(&mut so_far, block.raw_data);
                assert(so_far@ == before + block@.raw_data);
                if block.last_block {
                    return self.end_set(
                        invoke_id,
                        target,
                        so_far.as_slice(),
                        block.block_number,
                        out,
                    );
                }
                self.transfer =
                Transfer::ReceivingSet {
                    invoke_id,
                    target,
                    value: so_far,
                    block: block.block_number,
                };
                let response = SetResponse::DataBlock {
                    invoke_id,
                    block_number: block.block_number,
                };
                self.send(&Apdu::SetResponse(response), out)
            },
            _ => Err(Error::new(ErrorKind::UnexpectedMessage, 0)),
        }
    }

    /// The first block of a value too large for one APDU.
    fn begin_blocked_set(
        &mut self,
        invoke_id: InvokeId,
        descriptor: AttributeDescriptor,
        access: Option<SelectiveAccess<'_>>,
        block: &DataBlockSA<'_>,
        out: &mut [u8],
    ) -> (r: Result<usize>)
        ensures
            old(self)@.begins_set(
                old(self).objects(),
                invoke_id,
                descriptor@,
                opt_view(access),
                block@,
                ExchangeV {
                    n: N as nat,
                    before: old(out)@,
                    after: final(out)@,
                    next: final(self)@,
                    r,
                },
                final(self).objects(),
            ),
    {
        proof {
            lemma_name_of(descriptor.instance_id);
        }
        // Rights are checked now rather than when the last block lands: a client with no
        // write access should not be able to make the server hold a buffer for it.
        let rights = self.store.attribute_access(
            descriptor.class_id,
            descriptor.instance_id,
            descriptor.attribute_id,
        );
        assert(grants(old(self).objects(), descriptor@, rights));
        if !rights.can_write() {
            tell(
                &mut self.store,
                AuditEvent::AttributeWritten {
                    class_id: descriptor.class_id,
                    logical_name: descriptor.instance_id,
                    attribute_id: descriptor.attribute_id,
                    outcome: DataAccessResult::ReadWriteDenied,
                },
            );
            assert(write_noted(
                old(self).objects(),
                descriptor@,
                DataAccessResult::ReadWriteDenied,
                self.objects(),
            ));
            return self.set_last_block(
                invoke_id,
                DataAccessResult::ReadWriteDenied,
                block.block_number,
                out,
            );
        }
        // The selective-access descriptor has to survive from here to the last block, so
        // it is kept encoded. Nothing else in the server outlives a single `handle` call.

        let kept = match &access {
            None => Vec::new(),
            Some(sa) => {
                let mut w = BoundedWriter::new(N);
                assert(sa.enc() == sa@.enc() && sa.encodable() == sa@.fits());
                sa.encode(&mut w)?;
                w.finish()
            },
        };
        let ghost k = kept@;
        self.transfer =
        Transfer::ReceivingSet {
            invoke_id,
            target: SetTarget::One(descriptor, kept),
            value: Vec::new(),
            block: 0,
        };
        assert(self@ =~= old(self)@.receiving_set(invoke_id, SetTargetV::One(descriptor@, k)));
        self.continue_blocked_set(invoke_id, block, out)
    }

    /// The first block of a *batched* write whose values are too large for one APDU.
    ///
    /// The attribute list arrives with the first block and is needed at the last, so it
    /// is kept encoded — the same trick a single write uses for its selector, and for the
    /// same reason: nothing else in the server outlives one `handle` call.
    ///
    /// What the blocks carry is the encoded `value-list` field, count prefix included —
    /// a blocked request carries the body of whichever request form it is, which is the
    /// rule the blocked *response* already follows.
    fn begin_blocked_list_set(
        &mut self,
        invoke_id: InvokeId,
        descriptors: &[AttributeDescriptorWithSelection<'_>],
        block: &DataBlockSA<'_>,
        out: &mut [u8],
    ) -> (r: Result<usize>)
        ensures
            old(self)@.begins_set_list(
                old(self).objects(),
                invoke_id,
                views(descriptors@),
                block@,
                ExchangeV {
                    n: N as nat,
                    before: old(out)@,
                    after: final(out)@,
                    next: final(self)@,
                    r,
                },
                final(self).objects(),
            ),
    {
        if !self.negotiated.contains(Conformance::MULTIPLE_REFERENCES())
            || !self.negotiated.contains(Conformance::BLOCK_TRANSFER_WITH_SET_OR_WRITE()) {
            return self.set_error(invoke_id, DataAccessResult::DataBlockUnavailable, out);
        }
        if descriptors.len() > MAX_ACCESS_ITEMS {
            return self.set_error(invoke_id, DataAccessResult::OtherReason, out);
        }
        let mut w = BoundedWriter::new(N);
        write_items(&mut w, descriptors)?;
        let list = w.finish();
        let ghost k = list@;
        assert(k =~= enc_list::<AttributeDescriptorWithSelection>(views(descriptors@)));
        self.transfer =
        Transfer::ReceivingSet {
            invoke_id,
            target: SetTarget::Many(list),
            value: Vec::new(),
            block: 0,
        };
        assert(self@ =~= old(self)@.receiving_set(invoke_id, SetTargetV::Many(k)));
        self.continue_blocked_set(invoke_id, block, out)
    }

    /// Handle a SET request.
    pub(super) fn handle_set(&mut self, req: SetRequest<'_>, out: &mut [u8]) -> (r: Result<usize>)
        ensures
            old(self)@.sets(
                old(self).objects(),
                req@,
                ExchangeV {
                    n: N as nat,
                    before: old(out)@,
                    after: final(out)@,
                    next: final(self)@,
                    r,
                },
                final(self).objects(),
            ),
    {
        if self.state != ServerState::Associated {
            return self.not_possible(out);
        }
        if !self.negotiated.contains(Conformance::SET()) {
            return self.not_supported(out);
        }
        match req {
            SetRequest::Normal { invoke_id, descriptor, access, value } => {
                self.abandon();
                self.set_one(invoke_id, descriptor, access, value, out)
            },
            SetRequest::WithFirstDataBlock { invoke_id, descriptor, access, block } => {
                self.abandon();
                if !self.negotiated.contains(Conformance::BLOCK_TRANSFER_WITH_SET_OR_WRITE()) {
                    return self.set_error(invoke_id, DataAccessResult::DataBlockUnavailable, out);
                }
                self.begin_blocked_set(invoke_id, descriptor, access, &block, out)
            },
            SetRequest::WithDataBlock { invoke_id, block } => self.continue_blocked_set(
                invoke_id,
                &block,
                out,
            ),
            SetRequest::WithList { invoke_id, descriptors, values } => {
                if !self.negotiated.contains(Conformance::MULTIPLE_REFERENCES()) {
                    return self.not_supported(out);
                }
                // One value per descriptor. A request where the two lists disagree names a
                // write nobody can carry out: pairing what is there and guessing at the rest
                // is how a meter ends up writing one attribute's value into another.

                if descriptors.len() != values.len() {
                    return self.not_possible(out);
                }
                self.abandon();
                self.set_each(invoke_id, descriptors.as_slice(), values.as_slice(), out)
            },
            SetRequest::WithListAndFirstDataBlock { invoke_id, descriptors, block } => {
                self.abandon();
                self.begin_blocked_list_set(invoke_id, descriptors.as_slice(), &block, out)
            },
        }
    }
}

} // verus!
