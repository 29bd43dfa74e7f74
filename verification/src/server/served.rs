//! What each service does: what it asks of the store for every item of a request, and what it
//! tells the client of each.

use vstd::prelude::*;

use super::store::ObjectStore;
use crate::security::CryptoProvider;
#[allow(unused_imports)]
use super::access::{adds, entries_data, entries_results, EntryV};
#[allow(unused_imports)]
use super::invoke::{actions_bytes, invokes, MethodResult};
#[allow(unused_imports)]
use super::model::{ExchangeV, Outbound, ServerV, SetTargetV, TransferV};
#[allow(unused_imports)]
use super::read::{reads, reads_alone, reads_by_name, results_bytes};
#[allow(unused_imports)]
use super::short::{reads_entry, writes_entry};
#[allow(unused_imports)]
use super::store::{grants, noted, resolves, AuditEvent, StoreResult};
#[allow(unused_imports)]
use super::write::writes_to;
#[allow(unused_imports)]
use super::{Server, ServerConfig};
#[allow(unused_imports)]
use crate::axdr::data::{p_data, Data, DataV};
#[allow(unused_imports)]
use crate::codec::{enc_length, whole, Cursor, Error};
#[allow(unused_imports)]
use crate::cosem::access::AttributeAccess;
#[allow(unused_imports)]
use crate::cosem::sn::ShortNameTarget;
#[allow(unused_imports)]
use crate::obis::name_of;
#[allow(unused_imports)]
use crate::security::{ReplayWindow, SystemTitle};
#[allow(unused_imports)]
use crate::xdlms::apdu::ApduV;
#[allow(unused_imports)]
use crate::xdlms::ids::InvokeId;
#[allow(unused_imports)]
use crate::xdlms::list::{enc_list, fits_list, p_list};
#[allow(unused_imports)]
use crate::xdlms::result::{ActionResult, DataAccessResult, ServiceError, StateError};
#[allow(unused_imports)]
use crate::xdlms::service::{
    AccessRequestSpecificationV, AccessRequestV, AccessResponseSpecificationV, ActionRequestV,
    ActionResponseV, ActionResponseWithOptionalDataV, AttributeDescriptorV,
    AttributeDescriptorWithSelection, AttributeDescriptorWithSelectionV, BlockResultV, DataBlockGV,
    DataBlockSAV, GetDataResultV,
    GetRequestV, GetResponseV, MethodDescriptorV, ReadRequestV, ReadResponseV, ReadResultV,
    SelectiveAccessV, SetRequestV, SetResponseV, UnconfirmedWriteRequestV, VariableAccessV,
    WriteRequestV, WriteResponseV, WriteResultV,
};

verus! {

/// The bytes that protection may add to an answer.
pub open spec fn cost(config: ServerConfig) -> nat {
    if config.security.authenticated || config.security.encrypted {
        23
    } else {
        0
    }
}

/// A server with nothing in flight.
pub open spec fn free<P>(s: ServerV<P>) -> ServerV<P> {
    ServerV { transfer: TransferV::Idle, ..s }
}

/// A server that is about to send the first of some bytes in blocks.
pub open spec fn sending<P>(
    s: ServerV<P>,
    invoke_id: InvokeId,
    service: Outbound,
    bytes: Seq<u8>,
) -> ServerV<P> {
    ServerV { transfer: TransferV::Sending { invoke_id, service, bytes, sent: 0, block: 0 }, ..s }
}

/// A server that has so much of a value that is written in blocks.
pub open spec fn receiving<P>(
    s: ServerV<P>,
    invoke_id: InvokeId,
    target: SetTargetV,
    value: Seq<u8>,
    block: u32,
) -> ServerV<P> {
    ServerV { transfer: TransferV::ReceivingSet { invoke_id, target, value, block }, ..s }
}

/// A request for a service that was not agreed to is refused as unsupported, and the store is
/// left alone: reading, writing, invoking, the access service, and reading and writing by
/// short name each need their own flag. Outside an association everything but the answer to
/// the challenge is refused as not possible. What nobody confirms is not answered at all.
pub proof fn law_services_need_agreement<P: CryptoProvider, S: ObjectStore>(
    s: ServerV<P>,
    store: S,
    request: ApduV,
    x: ExchangeV<P>,
    after: S,
)
    requires
        s.serves(store, request, x, after),
    ensures
        ({
            let refused = after == store && s.excepts(
                StateError::ServiceUnknown,
                ServiceError::ServiceNotSupported,
                x,
            );
            let flags = s.negotiated.0;
            s.state is Associated ==> {
                &&& request is GetRequest && flags & 0x10u32 != 0x10u32 ==> refused
                &&& request is SetRequest && flags & 0x08u32 != 0x08u32 ==> refused
                &&& request is ActionRequest && flags & 0x01u32 != 0x01u32 ==> refused
                &&& request is AccessRequest && flags & 0x40u32 != 0x40u32 ==> refused
                &&& request is ReadRequest && flags & 0x10_0000u32 != 0x10_0000u32 ==> refused
                &&& request is WriteRequest && flags & 0x08_0000u32 != 0x08_0000u32 ==> refused
                &&& request is UnconfirmedWriteRequest && flags & 0x04_0000u32 != 0x04_0000u32
                    ==> after == store && x.after == x.before && x.next == s
                &&& (request matches ApduV::GetRequest(GetRequestV::WithList { .. }) && flags
                    & 0x200u32 != 0x200u32) ==> refused
                &&& (request matches ApduV::SetRequest(SetRequestV::WithList { .. }) && flags
                    & 0x200u32 != 0x200u32) ==> refused
                &&& (request matches ApduV::ActionRequest(ActionRequestV::WithList { .. }) && flags
                    & 0x200u32 != 0x200u32) ==> refused
            }
        }),
        ({
            let refused = after == store && s.excepts(
                StateError::ServiceNotAllowed,
                ServiceError::OperationNotPossible,
                x,
            );
            !(s.state is Associated) ==> {
                &&& request is GetRequest || request is SetRequest || request is AccessRequest
                    || request is ReadRequest || request is WriteRequest ==> refused
                &&& request is ActionRequest && !(s.state is AwaitingHlsReply) ==> refused
                &&& request is UnconfirmedWriteRequest ==> after == store && x.after == x.before
                    && x.next == s
            }
        }),
        request is UnconfirmedWriteRequest ==> x.after == x.before && x.r == Ok::<usize, Error>(0),
{
}

/// A read of one attribute asks the store for that attribute and that selection, and answers
/// under the number that the request came with: with the value, in one piece where the client
/// can receive it and in blocks where it agreed to them, or with the reason why not.
pub proof fn law_get_is_answered<P: CryptoProvider, S: ObjectStore>(
    s: ServerV<P>,
    store: S,
    invoke_id: InvokeId,
    d: AttributeDescriptorV,
    access: Option<SelectiveAccessV>,
    x: ExchangeV<P>,
    after: S,
)
    requires
        s.serves(
            store,
            ApduV::GetRequest(GetRequestV::Normal { invoke_id, descriptor: d, access }),
            x,
            after,
        ),
        s.state is Associated,
        s.negotiated.0 & 0x10u32 == 0x10u32,
    ensures
        exists|outcome: StoreResult<Seq<u8>>|
            {
                let then = free(s);
                &&& #[trigger] reads_alone(store, d, access, x.n, outcome, after)
                &&& match outcome {
                    Err(e) => then.sends(
                        ApduV::GetResponse(
                            GetResponseV::Normal { invoke_id, result: GetDataResultV::Error(e) },
                        ),
                        x,
                    ),
                    Ok(v) => if v.len() + 4 + cost(s.config) <= s.client_max {
                        whole(p_data(Cursor::start(v), 0)) matches Ok(value) ==> then.sends(
                            ApduV::GetResponse(
                                GetResponseV::Normal {
                                    invoke_id,
                                    result: GetDataResultV::Data(value),
                                },
                            ),
                            x,
                        )
                    } else if s.negotiated.0 & 0x1000u32 != 0x1000u32 {
                        then.sends(
                            ApduV::GetResponse(
                                GetResponseV::Normal {
                                    invoke_id,
                                    result: GetDataResultV::Error(
                                        DataAccessResult::DataBlockUnavailable,
                                    ),
                                },
                            ),
                            x,
                        )
                    } else {
                        sending(s, invoke_id, Outbound::Get, v).sends_block(x)
                    },
                }
            },
{
    let outcome = choose|outcome: StoreResult<Seq<u8>>| #[trigger]
        reads_alone(store, d, access, x.n, outcome, after) && s.idle().answers_get(
            invoke_id,
            outcome,
            x,
        );
    assert(reads_alone(store, d, access, x.n, outcome, after));
}

/// The results of a list stand in it one after the other: a zero and the value as the store
/// wrote it, or a one and the code of the reason.
pub proof fn law_results_stand_in_order(
    outcomes: Seq<StoreResult<Seq<u8>>>,
    v: Seq<u8>,
    e: DataAccessResult,
)
    ensures
        results_bytes(Seq::empty()) == Seq::<u8>::empty(),
        results_bytes(outcomes.push(Ok::<Seq<u8>, DataAccessResult>(v))) == results_bytes(outcomes)
            + (seq![0u8] + v),
        results_bytes(outcomes.push(Err::<Seq<u8>, DataAccessResult>(e))) == results_bytes(outcomes)
            + seq![1u8, e.as_u8()],
{
    assert(outcomes.push(Ok::<Seq<u8>, DataAccessResult>(v)).drop_last() =~= outcomes);
    assert(outcomes.push(Err::<Seq<u8>, DataAccessResult>(e)).drop_last() =~= outcomes);
}

/// A read of several attributes asks the store for each of them in turn, with the selection
/// that stands beside it, and tells the client of each what came of it, in that order.
pub proof fn law_get_list_is_answered<P: CryptoProvider, S: ObjectStore>(
    s: ServerV<P>,
    store: S,
    invoke_id: InvokeId,
    list: Seq<AttributeDescriptorWithSelectionV>,
    x: ExchangeV<P>,
    after: S,
)
    requires
        s.serves(
            store,
            ApduV::GetRequest(GetRequestV::WithList { invoke_id, list }),
            x,
            after,
        ),
        s.state is Associated,
        s.negotiated.0 & 0x10u32 == 0x10u32,
        s.negotiated.0 & 0x200u32 == 0x200u32,
    ensures
        exists|stores: Seq<S>, outcomes: Seq<StoreResult<Seq<u8>>>|
            #![trigger stores.len(), results_bytes(outcomes)]
            {
                let body = enc_length(outcomes.len()) + results_bytes(outcomes);
                let then = free(s);
                &&& stores.len() == outcomes.len() + 1
                &&& stores[0] == store
                &&& stores.last() == after
                &&& outcomes.len() <= list.len()
                &&& forall|i: int|
                    0 <= i < outcomes.len() ==> reads(
                        stores[i],
                        list[i].descriptor,
                        list[i].access,
                        (x.n - results_bytes(outcomes.take(i)).len() - 1) as nat,
                        #[trigger] outcomes[i],
                        stores[i + 1],
                    )
                &&& x.r is Ok ==> outcomes.len() == list.len()
                &&& outcomes.len() == list.len() && list.len() <= u32::MAX ==> {
                    if body.len() + 4 + cost(s.config) <= s.client_max {
                        then.sends_plain(seq![0xC4u8, 0x03u8, invoke_id.0] + body, x)
                    } else if s.negotiated.0 & 0x1000u32 != 0x1000u32 {
                        then.sends(
                            ApduV::GetResponse(
                                GetResponseV::Normal {
                                    invoke_id,
                                    result: GetDataResultV::Error(
                                        DataAccessResult::DataBlockUnavailable,
                                    ),
                                },
                            ),
                            x,
                        )
                    } else {
                        body.len() <= x.n ==> sending(s, invoke_id, Outbound::Get,
                            body).sends_block(x)
                    }
                }
            },
{
    let (stores, outcomes) = choose|stores: Seq<S>, outcomes: Seq<StoreResult<Seq<u8>>>|
        {
            &&& #[trigger] super::read::reads_each(list, x.n, stores, outcomes)
            &&& stores[0] == store
            &&& stores.last() == after
            &&& if outcomes.len() == list.len() {
                s.idle().answers_get_list(invoke_id, outcomes, x)
            } else {
                x.r is Err
            }
        };
    assert forall|i: int| 0 <= i < outcomes.len() implies reads(
        stores[i],
        list[i].descriptor,
        list[i].access,
        (x.n - results_bytes(outcomes.take(i)).len() - 1) as nat,
        #[trigger] outcomes[i],
        stores[i + 1],
    ) by {
        assert(super::read::read_at(list, x.n, stores, outcomes, i));
    }
    assert(stores.len() == outcomes.len() + 1 && results_bytes(outcomes).len() >= 0);
}

/// A write of one attribute hands the store that value for that attribute and that selection,
/// and tells the client, under the number that the request came with, what came of it.
pub proof fn law_set_is_answered<P: CryptoProvider, S: ObjectStore>(
    s: ServerV<P>,
    store: S,
    invoke_id: InvokeId,
    d: AttributeDescriptorV,
    access: Option<SelectiveAccessV>,
    value: DataV,
    x: ExchangeV<P>,
    after: S,
)
    requires
        s.serves(
            store,
            ApduV::SetRequest(SetRequestV::Normal { invoke_id, descriptor: d, access, value }),
            x,
            after,
        ),
        s.state is Associated,
        s.negotiated.0 & 0x08u32 == 0x08u32,
    ensures
        exists|outcome: DataAccessResult| #[trigger]
            writes_to(store, d, access, value, outcome, after)
                && free(s).sends(ApduV::SetResponse(SetResponseV::Normal { invoke_id,
                result: outcome }), x),
{
    let outcome = choose|outcome: DataAccessResult| #[trigger]
        writes_to(store, d, access, value, outcome, after) && s.idle().sends(
            super::model::set_v(invoke_id, outcome),
            x,
        );
    assert(writes_to(store, d, access, value, outcome, after));
}

/// A write of several attributes hands the store for each of them the value in its place,
/// with the selection beside it, and tells the client of each what came of it, in that order.
/// A list that does not pair up writes nothing.
pub proof fn law_set_list_is_answered<P: CryptoProvider, S: ObjectStore>(
    s: ServerV<P>,
    store: S,
    invoke_id: InvokeId,
    descriptors: Seq<AttributeDescriptorWithSelectionV>,
    values: Seq<DataV>,
    x: ExchangeV<P>,
    after: S,
)
    requires
        s.serves(
            store,
            ApduV::SetRequest(SetRequestV::WithList { invoke_id, descriptors, values }),
            x,
            after,
        ),
        s.state is Associated,
        s.negotiated.0 & 0x08u32 == 0x08u32,
        s.negotiated.0 & 0x200u32 == 0x200u32,
    ensures
        descriptors.len() != values.len() ==> after == store && s.excepts(
            StateError::ServiceNotAllowed,
            ServiceError::OperationNotPossible,
            x,
        ),
        descriptors.len() == values.len() ==> exists|
            stores: Seq<S>,
            outcomes: Seq<DataAccessResult>,
        |
            #![trigger stores.len(), outcomes.len()]
            {
                &&& stores.len() == outcomes.len() + 1
                &&& stores[0] == store
                &&& stores.last() == after
                &&& outcomes.len() <= descriptors.len()
                &&& forall|i: int|
                    0 <= i < outcomes.len() ==> writes_to(
                        stores[i],
                        descriptors[i].descriptor,
                        descriptors[i].access,
                        values[i],
                        #[trigger] outcomes[i],
                        stores[i + 1],
                    )
                &&& x.r is Ok || descriptors.len() <= x.n ==> {
                    &&& outcomes.len() == descriptors.len()
                    &&& free(s).sends(
                        ApduV::SetResponse(SetResponseV::WithList { invoke_id, results: outcomes }),
                        x,
                    )
                }
            },
{
    if descriptors.len() == values.len() {
        let (stores, outcomes) = choose|stores: Seq<S>, outcomes: Seq<DataAccessResult>|
            {
                &&& #[trigger] super::write::writes_each(descriptors, values, stores, outcomes)
                &&& stores[0] == store
                &&& stores.last() == after
                &&& if outcomes.len() <= x.n {
                    &&& outcomes.len() == descriptors.len()
                    &&& s.idle().sends(
                        ApduV::SetResponse(SetResponseV::WithList { invoke_id, results: outcomes }),
                        x,
                    )
                } else {
                    &&& outcomes.len() == x.n + 1
                    &&& x.r is Err
                }
            };
        assert(stores.len() == outcomes.len() + 1);
    }
}

/// The last block of a write hands the store the value that all the blocks make up, for the
/// attribute and the selection that the first one named, and tells the client what came of
/// it, beside the number of the block.
pub proof fn law_last_block_is_answered<P: CryptoProvider, S: ObjectStore>(
    s: ServerV<P>,
    store: S,
    invoke_id: InvokeId,
    d: AttributeDescriptorV,
    kept: Seq<u8>,
    so_far: Seq<u8>,
    last: u32,
    block: DataBlockSAV,
    access: Option<SelectiveAccessV>,
    value: DataV,
    x: ExchangeV<P>,
    after: S,
)
    requires
        s.serves(
            store,
            ApduV::SetRequest(SetRequestV::WithDataBlock { invoke_id, block }),
            x,
            after,
        ),
        s.state is Associated,
        s.negotiated.0 & 0x08u32 == 0x08u32,
        s.transfer == (TransferV::ReceivingSet {
            invoke_id,
            target: SetTargetV::One(d, kept),
            value: so_far,
            block: last,
        }),
        block.last_block,
        block.block_number == last + 1,
        kept.len() + so_far.len() + block.raw_data.len() <= x.n,
        match access {
            None => kept.len() == 0,
            Some(a) => kept.len() > 0 && whole(SelectiveAccessV::p(Cursor::start(kept))) == Ok::<
                SelectiveAccessV,
                Error,
            >(a),
        },
        whole(p_data(Cursor::start(so_far + block.raw_data), 0)) == Ok::<DataV, Error>(value),
    ensures
        exists|outcome: DataAccessResult| #[trigger]
            writes_to(store, d, access, value, outcome, after) && free(s).sends(
                ApduV::SetResponse(
                    SetResponseV::LastDataBlock {
                        invoke_id,
                        result: outcome,
                        block_number: block.block_number,
                    },
                ),
                x,
            ),
{
    let outcome = choose|outcome: DataAccessResult| #[trigger]
        writes_to(store, d, access, value, outcome, after) && s.idle().sends(
            super::write::last_block_v(invoke_id, outcome, block.block_number),
            x,
        );
    assert(writes_to(store, d, access, value, outcome, after));
}

/// A block of a write that is not the last is kept behind what came before it, and
/// acknowledged by its number; one that is out of order, or under another number, ends the
/// write and changes nothing.
pub proof fn law_block_is_kept<P: CryptoProvider, S: ObjectStore>(
    s: ServerV<P>,
    store: S,
    invoke_id: InvokeId,
    id: InvokeId,
    target: SetTargetV,
    so_far: Seq<u8>,
    last: u32,
    block: DataBlockSAV,
    x: ExchangeV<P>,
    after: S,
)
    requires
        s.serves(
            store,
            ApduV::SetRequest(SetRequestV::WithDataBlock { invoke_id, block }),
            x,
            after,
        ),
        s.state is Associated,
        s.negotiated.0 & 0x08u32 == 0x08u32,
        s.transfer == (TransferV::ReceivingSet { invoke_id: id, target, value: so_far,
            block: last }),
        last < u32::MAX,
    ensures
        !block.last_block ==> after == store,
        invoke_id != id || block.block_number != last + 1 ==> after == store && free(s).sends(
            ApduV::SetResponse(
                SetResponseV::Normal {
                    invoke_id,
                    result: DataAccessResult::DataBlockNumberInvalid,
                },
            ),
            x,
        ),
        invoke_id == id && block.block_number == last + 1 && !block.last_block
            && target.header().len() + so_far.len() + block.raw_data.len() <= x.n
                ==> receiving(s, invoke_id, target, so_far + block.raw_data,
                block.block_number).sends(
            ApduV::SetResponse(
                SetResponseV::DataBlock { invoke_id, block_number: block.block_number },
            ),
            x,
        ),
{
}

/// The first block of a write is refused at once where the store does not grant the right to
/// write, and told so; otherwise it is taken as the first of what the attribute is to hold.
pub proof fn law_first_block_needs_the_right<P: CryptoProvider, S: ObjectStore>(
    s: ServerV<P>,
    store: S,
    invoke_id: InvokeId,
    d: AttributeDescriptorV,
    access: Option<SelectiveAccessV>,
    block: DataBlockSAV,
    x: ExchangeV<P>,
    after: S,
)
    requires
        s.serves(
            store,
            ApduV::SetRequest(
                SetRequestV::WithFirstDataBlock { invoke_id, descriptor: d, access, block },
            ),
            x,
            after,
        ),
        s.state is Associated,
        s.negotiated.0 & 0x08u32 == 0x08u32,
        s.negotiated.0 & 0x800u32 == 0x800u32,
    ensures
        exists|rights: AttributeAccess| #[trigger]
            grants(store, d, rights) && if rights.can_write() {
                (access matches Some(a) ==> a.fits()) && selector_bytes(access).len() <= x.n
                    ==> receiving(
                    s,
                    invoke_id,
                    SetTargetV::One(d, selector_bytes(access)),
                    Seq::empty(),
                    0,
                ).takes_set(store, invoke_id, block, x, after)
            } else {
                &&& noted(
                    store,
                    AuditEvent::AttributeWritten {
                        class_id: d.class_id,
                        logical_name: name_of(d.instance_id),
                        attribute_id: d.attribute_id,
                        outcome: DataAccessResult::ReadWriteDenied,
                    },
                    after,
                )
                &&& free(s).sends(
                    ApduV::SetResponse(
                        SetResponseV::LastDataBlock {
                            invoke_id,
                            result: DataAccessResult::ReadWriteDenied,
                            block_number: block.block_number,
                        },
                    ),
                    x,
                )
            },
{
    let rights = choose|rights: AttributeAccess|
        #![trigger grants(store, d, rights)]
        grants(store, d, rights) && s.idle().begins_set_with(
            store,
            invoke_id,
            d,
            access,
            block,
            rights,
            x,
            after,
        );
    assert(grants(store, d, rights));
}

/// What is kept of the part that a first block names: its selector and its parameter.
pub open spec fn selector_bytes(access: Option<SelectiveAccessV>) -> Seq<u8> {
    match access {
        Some(a) => seq![a.selector] + a.parameters.enc(),
        None => Seq::empty(),
    }
}

/// An invocation runs that method of that object with that parameter, and answers under the
/// number that the request came with: with what the method returned, in one piece where the
/// client can receive it and in blocks where it agreed to them, or with the reason why not.
pub proof fn law_action_is_answered<P: CryptoProvider, S: ObjectStore>(
    s: ServerV<P>,
    store: S,
    invoke_id: InvokeId,
    d: MethodDescriptorV,
    parameters: Option<DataV>,
    x: ExchangeV<P>,
    after: S,
)
    requires
        s.serves(
            store,
            ApduV::ActionRequest(ActionRequestV::Normal { invoke_id, descriptor: d, parameters }),
            x,
            after,
        ),
        s.state is Associated,
        s.negotiated.0 & 0x01u32 == 0x01u32,
    ensures
        exists|outcome: MethodResult<Seq<u8>>| #[trigger]
            invokes(store, d, parameters, x.n, outcome, after) && told_of(
                s,
                invoke_id,
                outcome,
                x,
            ),
{
    let outcome = choose|outcome: MethodResult<Seq<u8>>| #[trigger]
        invokes(store, d, parameters, x.n, outcome, after) && s.idle().answers_action(
            invoke_id,
            outcome,
            x,
        );
    assert(invokes(store, d, parameters, x.n, outcome, after));
}

/// Whether a client is told what a method came to.
pub open spec fn told_of<P: CryptoProvider>(
    s: ServerV<P>,
    invoke_id: InvokeId,
    outcome: MethodResult<Seq<u8>>,
    x: ExchangeV<P>,
) -> bool {
    let then = free(s);
    match outcome {
        Err(e) => then.sends(
            ApduV::ActionResponse(
                ActionResponseV::Normal {
                    invoke_id,
                    response: ActionResponseWithOptionalDataV {
                        result: e,
                        return_parameters: None,
                    },
                },
            ),
            x,
        ),
        Ok(None) => then.sends(
            ApduV::ActionResponse(
                ActionResponseV::Normal {
                    invoke_id,
                    response: ActionResponseWithOptionalDataV {
                        result: ActionResult::Success,
                        return_parameters: None,
                    },
                },
            ),
            x,
        ),
        Ok(Some(v)) => if v.len() + 6 + cost(s.config) <= s.client_max {
            whole(p_data(Cursor::start(v), 0)) matches Ok(value) ==> then.sends(
                ApduV::ActionResponse(
                    ActionResponseV::Normal {
                        invoke_id,
                        response: ActionResponseWithOptionalDataV {
                            result: ActionResult::Success,
                            return_parameters: Some(GetDataResultV::Data(value)),
                        },
                    },
                ),
                x,
            )
        } else if s.negotiated.0 & 0x400u32 != 0x400u32 {
            then.sends(
                ApduV::ActionResponse(
                    ActionResponseV::Normal {
                        invoke_id,
                        response: ActionResponseWithOptionalDataV {
                            result: ActionResult::DataBlockUnavailable,
                            return_parameters: None,
                        },
                    },
                ),
                x,
            )
        } else {
            sending(s, invoke_id, Outbound::Action, v).sends_block(x)
        },
    }
}

/// The outcomes of a list of methods stand in it one after the other: the code, and then
/// either a one, a zero and the value as the method wrote it, or a zero.
pub proof fn law_outcomes_stand_in_order(
    outcomes: Seq<MethodResult<Seq<u8>>>,
    v: Seq<u8>,
    e: ActionResult,
)
    ensures
        actions_bytes(Seq::empty()) == Seq::<u8>::empty(),
        actions_bytes(outcomes.push(Ok::<Option<Seq<u8>>, ActionResult>(Some(v))))
            == actions_bytes(outcomes) + (seq![0u8, 1u8, 0u8] + v),
        actions_bytes(outcomes.push(Ok::<Option<Seq<u8>>, ActionResult>(None)))
            == actions_bytes(outcomes) + seq![0u8, 0u8],
        actions_bytes(outcomes.push(Err::<Option<Seq<u8>>, ActionResult>(e)))
            == actions_bytes(outcomes) + seq![e.as_u8(), 0u8],
{
    assert(outcomes.push(Ok::<Option<Seq<u8>>, ActionResult>(Some(v))).drop_last() =~= outcomes);
    assert(outcomes.push(Ok::<Option<Seq<u8>>, ActionResult>(None)).drop_last() =~= outcomes);
    assert(outcomes.push(Err::<Option<Seq<u8>>, ActionResult>(e)).drop_last() =~= outcomes);
}

/// An invocation of several methods runs each of them in turn, with the parameter in its
/// place, where null stands for none, and tells the client of each what came of it, in that
/// order. A list that does not pair up runs nothing.
pub proof fn law_action_list_is_answered<P: CryptoProvider, S: ObjectStore>(
    s: ServerV<P>,
    store: S,
    invoke_id: InvokeId,
    descriptors: Seq<MethodDescriptorV>,
    parameters: Seq<DataV>,
    x: ExchangeV<P>,
    after: S,
)
    requires
        s.serves(
            store,
            ApduV::ActionRequest(ActionRequestV::WithList { invoke_id, descriptors, parameters }),
            x,
            after,
        ),
        s.state is Associated,
        s.negotiated.0 & 0x01u32 == 0x01u32,
        s.negotiated.0 & 0x200u32 == 0x200u32,
    ensures
        descriptors.len() != parameters.len() || descriptors.len() > 64 ==> after == store
            && s.excepts(
            StateError::ServiceNotAllowed,
            ServiceError::OperationNotPossible,
            x,
        ),
        descriptors.len() == parameters.len() <= 64
            ==> exists|stores: Seq<S>, outcomes: Seq<MethodResult<Seq<u8>>>|
            #![trigger stores.len(), actions_bytes(outcomes)]
            {
                &&& stores.len() == outcomes.len() + 1
                &&& stores[0] == store
                &&& stores.last() == after
                &&& outcomes.len() <= descriptors.len()
                &&& forall|i: int|
                    0 <= i < outcomes.len() ==> invokes(
                        stores[i],
                        descriptors[i],
                        if parameters[i] is Null {
                            None
                        } else {
                            Some(parameters[i])
                        },
                        (x.n - actions_bytes(outcomes.take(i)).len() - 3) as nat,
                        #[trigger] outcomes[i],
                        stores[i + 1],
                    )
                &&& x.r is Ok ==> outcomes.len() == descriptors.len()
                &&& outcomes.len() == descriptors.len() ==> free(s).sends_plain(
                    seq![0xC7u8, 0x03u8, invoke_id.0] + enc_length(outcomes.len()) + actions_bytes(
                        outcomes,
                    ),
                    x,
                )
            },
{
    if descriptors.len() == parameters.len() && descriptors.len()
        <= crate::xdlms::service::MAX_ACCESS_ITEMS {
        let (stores, outcomes) = choose|stores: Seq<S>, outcomes: Seq<MethodResult<Seq<u8>>>|
            {
                &&& #[trigger] super::invoke::invokes_each(
                    descriptors,
                    parameters,
                    x.n,
                    stores,
                    outcomes,
                )
                &&& stores[0] == store
                &&& stores.last() == after
                &&& if outcomes.len() == descriptors.len() {
                    s.idle().sends_plain(
                        seq![0xC7u8, 0x03, invoke_id.0] + enc_length(outcomes.len())
                            + actions_bytes(outcomes),
                        x,
                    )
                } else {
                    x.r is Err
                }
            };
        assert forall|i: int| 0 <= i < outcomes.len() implies invokes(
            stores[i],
            descriptors[i],
            if parameters[i] is Null {
                None
            } else {
                Some(parameters[i])
            },
            (x.n - actions_bytes(outcomes.take(i)).len() - 3) as nat,
            #[trigger] outcomes[i],
            stores[i + 1],
        ) by {
            assert(super::invoke::invoked_at(descriptors, parameters, x.n, stores, outcomes, i));
        }
        assert(stores.len() == outcomes.len() + 1 && actions_bytes(outcomes).len() >= 0);
    }
}

/// A value, where null stands for none.
pub open spec fn unless_null(value: DataV) -> Option<DataV> {
    if value is Null {
        None
    } else {
        Some(value)
    }
}

/// What one operation of an access request asks of the store, and what it adds to the answer:
/// a read its value, and null where there is none; a write and an invocation without a value
/// null; and each the code of what came of it. Only what asks for a part names one.
pub proof fn law_operation_is_answered<S: ObjectStore>(
    before: S,
    op: AccessRequestSpecificationV,
    value: DataV,
    room: nat,
    e: EntryV,
    after: S,
)
    requires
        adds(before, op, value, room, Some(e), after),
        room > 0,
    ensures
        match op {
            AccessRequestSpecificationV::Get(d) => read_added(before, d, None, room, e, after),
            AccessRequestSpecificationV::GetWithSelection(d) => read_added(
                before,
                d.descriptor,
                d.access,
                room,
                e,
                after,
            ),
            AccessRequestSpecificationV::Write(d) => e.data == seq![0u8] && exists|
                o: DataAccessResult,
            | #[trigger]
                writes_to(before, d, None, value, o, after) && e.result
                    == AccessResponseSpecificationV::Write(o),
            AccessRequestSpecificationV::WriteWithSelection(d) => e.data == seq![0u8] && exists|
                o: DataAccessResult,
            | #[trigger]
                writes_to(before, d.descriptor, d.access, value, o, after) && e.result
                    == AccessResponseSpecificationV::Write(o),
            AccessRequestSpecificationV::Action(d) => exists|o: MethodResult<Seq<u8>>| #[trigger]
                invokes(
                    before,
                    d,
                    unless_null(value),
                    room,
                    o,
                    after,
                ) && match o {
                    Ok(Some(v)) => e.data == v && e.result == AccessResponseSpecificationV::Action(
                        ActionResult::Success,
                    ),
                    Ok(None) => e.data == seq![0u8] && e.result
                        == AccessResponseSpecificationV::Action(ActionResult::Success),
                    Err(c) => e.data == seq![0u8] && e.result
                        == AccessResponseSpecificationV::Action(c),
                },
        },
{
    reveal(reads);
    match op {
        AccessRequestSpecificationV::Get(d) => {
            lemma_read_added(before, d, None, room, e, after);
        },
        AccessRequestSpecificationV::GetWithSelection(d) => {
            lemma_read_added(before, d.descriptor, d.access, room, e, after);
        },
        AccessRequestSpecificationV::Action(d) => {
            let o = choose|o: MethodResult<Seq<u8>>| #[trigger]
                invokes(before, d, super::invoke::parameter_of(value), room, o, after) && Some(e)
                    == super::access::action_entry(o, room);
            assert(invokes(
                before,
                d,
                unless_null(value),
                room,
                o,
                after,
            ));
        },
        _ => {},
    }
}

/// Whether a read adds its value, or null and the reason.
pub open spec fn read_added<S: ObjectStore>(
    before: S,
    d: AttributeDescriptorV,
    access: Option<SelectiveAccessV>,
    room: nat,
    e: EntryV,
    after: S,
) -> bool {
    exists|o: StoreResult<Seq<u8>>| #[trigger]
        reads(before, d, access, room, o, after) && match o {
            Ok(v) => e.data == v && e.result == AccessResponseSpecificationV::Get(
                DataAccessResult::Success,
            ),
            Err(c) => e.data == seq![0u8] && e.result == AccessResponseSpecificationV::Get(c),
        }
}

proof fn lemma_read_added<S: ObjectStore>(
    before: S,
    d: AttributeDescriptorV,
    access: Option<SelectiveAccessV>,
    room: nat,
    e: EntryV,
    after: S,
)
    requires
        super::access::adds_read(before, d, access, room, Some(e), after),
        room > 0,
    ensures
        read_added(before, d, access, room, e, after),
{
    reveal(reads);
    let (rights, written, r) = choose|rights: AttributeAccess, written: Seq<u8>, r: StoreResult<()>|
        {
            let outcome = super::read::read_outcome(rights, written, r);
            &&& #[trigger] super::read::asks(before, d, access, room, rights, written, r)
            &&& Some(e) == Some(super::access::read_entry(outcome, room))
            &&& super::read::read_noted(before, d, super::read::told(outcome), after)
        };
    assert(reads(before, d, access, room, super::read::read_outcome(rights, written, r), after));
}

/// The values of an access response stand one after the other, and the codes beside them in
/// the same order.
pub proof fn law_entries_stand_in_order(entries: Seq<EntryV>, e: EntryV, i: int)
    ensures
        entries_data(Seq::empty()) == Seq::<u8>::empty(),
        entries_data(entries.push(e)) == entries_data(entries) + e.data,
        entries_results(entries).len() == entries.len(),
        0 <= i < entries.len() ==> entries_results(entries)[i] == entries[i].result,
{
    assert(entries.push(e).drop_last() =~= entries);
}

/// An access request does each of its operations in turn, on the store as the one before left
/// it and with the value in its place, and answers all of them in that order. A list that
/// does not pair up does nothing.
pub proof fn law_access_is_answered<P: CryptoProvider, S: ObjectStore>(
    s: ServerV<P>,
    store: S,
    req: AccessRequestV,
    x: ExchangeV<P>,
    after: S,
)
    requires
        s.serves(store, ApduV::AccessRequest(req), x, after),
        s.state is Associated,
        s.negotiated.0 & 0x40u32 == 0x40u32,
    ensures
        req.specification.len() != req.data.len() ==> after == store && s.excepts(
            StateError::ServiceNotAllowed,
            ServiceError::OperationNotPossible,
            x,
        ),
        req.specification.len() == req.data.len() > 64 ==> after == store && s.excepts(
            StateError::ServiceNotAllowed,
            ServiceError::PduTooLong,
            x,
        ),
        req.specification.len() == req.data.len() <= 64 ==> exists|
            stores: Seq<S>,
            entries: Seq<EntryV>,
        |
            #![trigger stores.len(), entries_data(entries)]
            {
                &&& stores.len() == entries.len() + 1
                &&& stores[0] == store
                &&& entries.len() <= req.specification.len()
                &&& forall|i: int|
                    0 <= i < entries.len() ==> adds(
                        stores[i],
                        req.specification[i],
                        req.data[i],
                        (x.n - entries_data(entries.take(i)).len()) as nat,
                        Some(#[trigger] entries[i]),
                        stores[i + 1],
                    )
                &&& x.r is Ok ==> entries.len() == req.specification.len()
                &&& entries.len() == req.specification.len() ==> {
                    &&& stores.last() == after
                    &&& free(s).sends_plain(
                        seq![0xDAu8] + req.long_invoke_id.enc() + seq![0u8, 0u8] + enc_length(
                            entries.len(),
                        ) + entries_data(entries) + crate::xdlms::list::enc_list::<
                            crate::xdlms::service::AccessResponseSpecification,
                        >(entries_results(entries)),
                        x,
                    )
                }
            },
{
    if req.specification.len() == req.data.len() && req.data.len() <= 64 {
        let (stores, entries) = choose|stores: Seq<S>, entries: Seq<EntryV>|
            {
                &&& #[trigger] super::access::adds_each(
                    req.specification,
                    req.data,
                    x.n,
                    stores,
                    entries,
                )
                &&& stores[0] == store
                &&& if entries.len() == req.specification.len() {
                    &&& stores.last() == after
                    &&& s.idle().sends_plain(
                        super::access::access_bytes(req.long_invoke_id, entries),
                        x,
                    )
                } else {
                    x.r is Err
                }
            };
        let id = seq![0xDAu8] + req.long_invoke_id.enc();
        let none = crate::xdlms::ids::OptionalDateTime(None).enc();
        assert(none =~= seq![0u8]);
        assert(id + none + seq![0u8] =~= id + seq![0u8, 0u8]);
        assert(stores.len() == entries.len() + 1 && entries_data(entries).len() >= 0);
    }
}

/// What a name of a short-name request stands for is what the store says; an entry with a
/// selector names a part of it, and one that goes on with a transfer names nothing.
pub proof fn law_name_is_resolved<S: ObjectStore>(
    before: S,
    entry: VariableAccessV,
    room: nat,
    outcome: StoreResult<Seq<u8>>,
    after: S,
)
    requires
        reads_entry(before, entry, room, outcome, after),
    ensures
        match entry {
            VariableAccessV::VariableName(name) => exists|t: Option<ShortNameTarget>| #[trigger]
                resolves(before, name, t) && name_read(before, t, None, room, outcome, after),
            VariableAccessV::Parameterized { name, selector, parameter } => exists|
                t: Option<ShortNameTarget>,
            | #[trigger]
                resolves(before, name, t) && name_read(
                    before,
                    t,
                    Some((selector, parameter)),
                    room,
                    outcome,
                    after,
                ),
            _ => after == before && outcome == Err::<Seq<u8>, DataAccessResult>(
                DataAccessResult::OtherReason,
            ),
        },
{
    reveal(reads_entry);
    match super::short::named(entry) {
        Some((name, access)) => {
            let t = choose|t: Option<ShortNameTarget>| #[trigger]
                resolves(before, name, t) && super::short::reads_target(
                    before,
                    t,
                    access,
                    room,
                    outcome,
                    after,
                );
            assert(resolves(before, name, t));
            if let Some(ShortNameTarget::Method { class_id, logical_name, method_id }) = t {
                let d = MethodDescriptorV { class_id, instance_id: logical_name@, method_id };
                let m = choose|m: MethodResult<Seq<u8>>| #[trigger]
                    invokes(before, d, super::short::carried(access), room, m, after) && outcome
                        == super::short::method_read(m, room);
                assert(invokes(before, d, super::short::carried(access), room, m, after));
            }
        },
        None => {},
    }
}

/// The parameter that came with a name.
pub open spec fn with_name(part: Option<(u8, DataV)>) -> Option<DataV> {
    match part {
        None => None,
        Some((_, parameter)) => Some(parameter),
    }
}

/// The part that a selector and its parameter name.
pub open spec fn part_named(part: Option<(u8, DataV)>) -> Option<SelectiveAccessV> {
    match part {
        None => None,
        Some((selector, parameters)) => Some(SelectiveAccessV { selector, parameters }),
    }
}

/// Whether reading what a name stands for comes to this: nothing is undefined, an attribute is
/// read, and a method is run with the parameter that came with the name.
pub open spec fn name_read<S: ObjectStore>(
    before: S,
    target: Option<ShortNameTarget>,
    part: Option<(u8, DataV)>,
    room: nat,
    outcome: StoreResult<Seq<u8>>,
    after: S,
) -> bool {
    match target {
        None => after == before && outcome == Err::<Seq<u8>, DataAccessResult>(
            DataAccessResult::ObjectUndefined,
        ),
        Some(ShortNameTarget::Attribute { class_id, logical_name, attribute_id }) => reads_by_name(
            before,
            AttributeDescriptorV { class_id, instance_id: logical_name@, attribute_id },
            part_named(part),
            room,
            outcome,
            after,
        ),
        Some(ShortNameTarget::Method { class_id, logical_name, method_id }) => exists|
            m: MethodResult<Seq<u8>>,
        | #[trigger]
            invokes(
                before,
                MethodDescriptorV { class_id, instance_id: logical_name@, method_id },
                with_name(part),
                room,
                m,
                after,
            ) && match m {
                Ok(Some(v)) => outcome == Ok::<Seq<u8>, DataAccessResult>(v),
                Ok(None) => room > 0 ==> outcome == Ok::<Seq<u8>, DataAccessResult>(seq![0u8]),
                Err(e) => outcome matches Err(c) && same_reason(e, c),
            },
    }
}

/// Whether the code of a read or a write says what the code of an invocation says: by name,
/// and as some other reason where there is none of that name.
pub open spec fn same_reason(e: ActionResult, c: DataAccessResult) -> bool {
    match e {
        ActionResult::Success => c is Success,
        ActionResult::HardwareFault => c is HardwareFault,
        ActionResult::TemporaryFailure => c is TemporaryFailure,
        ActionResult::ReadWriteDenied => c is ReadWriteDenied,
        ActionResult::ObjectUndefined => c is ObjectUndefined,
        ActionResult::ObjectClassInconsistent => c is ObjectClassInconsistent,
        ActionResult::ObjectUnavailable => c is ObjectUnavailable,
        ActionResult::TypeUnmatched => c is TypeUnmatched,
        ActionResult::ScopeOfAccessViolated => c is ScopeOfAccessViolated,
        ActionResult::DataBlockUnavailable => c is DataBlockUnavailable,
        ActionResult::LongActionAborted => c is LongGetAborted,
        ActionResult::NoLongActionInProgress => c is NoLongGetInProgress,
        _ => c is OtherReason,
    }
}

/// A read by short name reads its entries in turn, and answers them in that order: each with
/// a zero and the value, or a one and the code of the reason. A single value that is too long
/// goes out in blocks, without the zero.
pub proof fn law_short_read_is_answered<P: CryptoProvider, S: ObjectStore>(
    s: ServerV<P>,
    store: S,
    entries: Seq<VariableAccessV>,
    x: ExchangeV<P>,
    after: S,
)
    requires
        s.serves(store, ApduV::ReadRequest(ReadRequestV { specification: entries }), x, after),
        s.state is Associated,
        s.negotiated.0 & 0x10_0000u32 == 0x10_0000u32,
        0 < entries.len() <= 64,
        !(entries.len() == 1 && entries[0] is BlockNumber),
    ensures
        exists|stores: Seq<S>, outcomes: Seq<StoreResult<Seq<u8>>>|
            #![trigger stores.len(), results_bytes(outcomes)]
            {
                let body = enc_length(outcomes.len()) + results_bytes(outcomes);
                &&& stores.len() == outcomes.len() + 1
                &&& stores[0] == store
                &&& stores.last() == after
                &&& outcomes.len() <= entries.len()
                &&& forall|i: int|
                    0 <= i < outcomes.len() ==> reads_entry(
                        stores[i],
                        entries[i],
                        (x.n - results_bytes(outcomes.take(i)).len() - 1) as nat,
                        #[trigger] outcomes[i],
                        stores[i + 1],
                    )
                &&& x.r is Ok ==> outcomes.len() == entries.len()
                &&& outcomes.len() == entries.len() && results_bytes(outcomes).len() <= x.n ==> {
                    if body.len() + 4 + cost(s.config) <= s.client_max {
                        free(s).sends_plain(seq![0x0Cu8] + body, x)
                    } else if outcomes.len() == 1 && s.negotiated.0 & 0x1000u32 == 0x1000u32 {
                        sending(
                            s,
                            InvokeId(0),
                            Outbound::Read,
                            results_bytes(outcomes).skip(1),
                        ).sends_block(x)
                    } else {
                        free(s).sends(
                            ApduV::ReadResponse(
                                ReadResponseV {
                                    results: seq![
                                        ReadResultV::Error(DataAccessResult::DataBlockUnavailable),
                                    ],
                                },
                            ),
                            x,
                        )
                    }
                }
            },
{
    let (stores, outcomes) = choose|stores: Seq<S>, outcomes: Seq<StoreResult<Seq<u8>>>|
        {
            &&& #[trigger] super::short::reads_entries(entries, x.n, stores, outcomes)
            &&& stores[0] == store
            &&& stores.last() == after
            &&& if outcomes.len() == entries.len() && results_bytes(outcomes).len() <= x.n {
                s.idle().answers_read(outcomes, x)
            } else {
                x.r is Err
            }
        };
    assert forall|i: int| 0 <= i < outcomes.len() implies reads_entry(
        stores[i],
        entries[i],
        (x.n - results_bytes(outcomes.take(i)).len() - 1) as nat,
        #[trigger] outcomes[i],
        stores[i + 1],
    ) by {
        assert(super::short::entry_at(entries, x.n, stores, outcomes, i));
    }
    assert(stores.len() == outcomes.len() + 1 && results_bytes(outcomes).len() >= 0);
}

/// Whether writing to what a name stands for comes to this: nothing is undefined, an attribute
/// is written, and a method is run with the value as its parameter.
pub open spec fn name_written<S: ObjectStore>(
    before: S,
    target: Option<ShortNameTarget>,
    part: Option<(u8, DataV)>,
    value: DataV,
    outcome: DataAccessResult,
    after: S,
) -> bool {
    match target {
        None => after == before && outcome is ObjectUndefined,
        Some(ShortNameTarget::Attribute { class_id, logical_name, attribute_id }) => writes_to(
            before,
            AttributeDescriptorV { class_id, instance_id: logical_name@, attribute_id },
            part_named(part),
            value,
            outcome,
            after,
        ),
        Some(ShortNameTarget::Method { class_id, logical_name, method_id }) => exists|
            m: MethodResult<Seq<u8>>,
        | #[trigger]
            invokes(
                before,
                MethodDescriptorV { class_id, instance_id: logical_name@, method_id },
                Some(value),
                1,
                m,
                after,
            ) && match m {
                Ok(_) => outcome is Success,
                Err(e) => same_reason(e, outcome),
            },
    }
}

/// A name that is written to is resolved as one that is read.
pub proof fn law_written_name_is_resolved<S: ObjectStore>(
    before: S,
    entry: VariableAccessV,
    value: DataV,
    outcome: DataAccessResult,
    after: S,
)
    requires
        writes_entry(before, entry, value, outcome, after),
    ensures
        match entry {
            VariableAccessV::VariableName(name) => exists|t: Option<ShortNameTarget>| #[trigger]
                resolves(before, name, t) && name_written(before, t, None, value, outcome, after),
            VariableAccessV::Parameterized { name, selector, parameter } => exists|
                t: Option<ShortNameTarget>,
            | #[trigger]
                resolves(before, name, t) && name_written(
                    before,
                    t,
                    Some((selector, parameter)),
                    value,
                    outcome,
                    after,
                ),
            _ => after == before && outcome is OtherReason,
        },
{
    match super::short::named(entry) {
        Some((name, access)) => {
            let t = choose|t: Option<ShortNameTarget>| #[trigger]
                resolves(before, name, t) && super::short::writes_target(
                    before,
                    t,
                    access,
                    value,
                    outcome,
                    after,
                );
            assert(resolves(before, name, t));
            if let Some(ShortNameTarget::Method { class_id, logical_name, method_id }) = t {
                let d = MethodDescriptorV { class_id, instance_id: logical_name@, method_id };
                let m = choose|m: MethodResult<Seq<u8>>| #[trigger]
                    invokes(before, d, Some(value), 1, m, after) && outcome
                        == super::short::method_written(m);
                assert(invokes(before, d, Some(value), 1, m, after));
            }
        },
        None => {},
    }
}

/// A write by short name writes its entries in turn, each the value in its place, and tells
/// the client of each what came of it, in that order, where it wants to be told.
pub proof fn law_short_write_is_answered<P: CryptoProvider, S: ObjectStore>(
    s: ServerV<P>,
    store: S,
    entries: Seq<VariableAccessV>,
    values: Seq<DataV>,
    confirmed: bool,
    x: ExchangeV<P>,
    after: S,
)
    requires
        confirmed ==> s.serves(
            store,
            ApduV::WriteRequest(WriteRequestV { specification: entries, values }),
            x,
            after,
        ),
        !confirmed ==> s.serves(
            store,
            ApduV::UnconfirmedWriteRequest(
                UnconfirmedWriteRequestV { specification: entries, values },
            ),
            x,
            after,
        ),
        s.state is Associated,
        confirmed ==> s.negotiated.0 & 0x08_0000u32 == 0x08_0000u32,
        !confirmed ==> s.negotiated.0 & 0x04_0000u32 == 0x04_0000u32,
        entries.len() <= 64,
    ensures
        entries.len() == 0 || entries.len() != values.len() ==> after == store,
        0 < entries.len() == values.len()
            ==> exists|stores: Seq<S>, outcomes: Seq<DataAccessResult>|
            #![trigger stores.len(), outcomes.len()]
            {
                &&& stores.len() == outcomes.len() + 1
                &&& outcomes.len() == entries.len()
                &&& stores[0] == store
                &&& stores.last() == after
                &&& forall|i: int|
                    0 <= i < outcomes.len() ==> writes_entry(
                        stores[i],
                        entries[i],
                        values[i],
                        #[trigger] outcomes[i],
                        stores[i + 1],
                    )
                &&& confirmed ==> exists|results: Seq<WriteResultV>|
                    {
                        &&& results.len() == outcomes.len()
                        &&& forall|i: int|
                            0 <= i < results.len() ==> (#[trigger] results[i]) == (
                            if outcomes[i] is Success {
                                WriteResultV::Success
                            } else {
                                WriteResultV::Error(outcomes[i])
                            })
                        &&& #[trigger] free(s).sends(
                            ApduV::WriteResponse(WriteResponseV { results }),
                            x,
                        )
                    }
            },
{
    if 0 < entries.len() && entries.len() == values.len() {
        let (stores, outcomes) = choose|stores: Seq<S>, outcomes: Seq<DataAccessResult>|
            {
                &&& #[trigger] super::short::writes_entries(entries, values, stores, outcomes)
                &&& outcomes.len() == entries.len()
                &&& stores[0] == store
                &&& stores.last() == after
                &&& confirmed ==> s.idle().sends(
                    ApduV::WriteResponse(
                        WriteResponseV {
                            results: outcomes.map_values(
                                |o: DataAccessResult| super::short::written_v(o),
                            ),
                        },
                    ),
                    x,
                )
            };
        let results = outcomes.map_values(|o: DataAccessResult| super::short::written_v(o));
        if confirmed {
            assert(free(s).sends(ApduV::WriteResponse(WriteResponseV { results }), x));
        }
        assert(stores.len() == outcomes.len() + 1);
    }
}

/// A block goes out in the form of the service that it answers, with its number, whether it
/// is the last, and its bytes.
pub proof fn law_block_says_what_it_is(
    invoke_id: InvokeId,
    last: bool,
    number: u32,
    data: Seq<u8>,
)
    ensures
        super::model::block_apdu_v(invoke_id, Outbound::Get, last, number, data)
            == ApduV::GetResponse(
            GetResponseV::WithDataBlock {
                invoke_id,
                block: DataBlockGV {
                    last_block: last,
                    block_number: number,
                    result: BlockResultV::RawData(data),
                },
            },
        ),
        super::model::block_apdu_v(invoke_id, Outbound::Action, last, number, data)
            == ApduV::ActionResponse(
            ActionResponseV::WithPblock {
                invoke_id,
                block: DataBlockSAV { last_block: last, block_number: number, raw_data: data },
            },
        ),
        number <= 0xFFFF ==> super::model::block_apdu_v(
            invoke_id,
            Outbound::Read,
            last,
            number,
            data,
        ) == ApduV::ReadResponse(
            ReadResponseV {
                results: seq![
                    ReadResultV::Block {
                        last_block: last,
                        block_number: number as u16,
                        raw_data: data,
                    },
                ],
            },
        ),
{
}

/// The next block of a long answer is sent only for the one before it, under the number that
/// the answer has; any other request for one ends it. Where nothing is being sent, the client
/// is told so.
pub proof fn law_next_block_is_sent<P: CryptoProvider, S: ObjectStore>(
    s: ServerV<P>,
    store: S,
    invoke_id: InvokeId,
    number: u32,
    x: ExchangeV<P>,
    after: S,
)
    requires
        s.state is Associated,
    ensures
        s.serves(
            store,
            ApduV::GetRequest(GetRequestV::Next { invoke_id, block_number: number }),
            x,
            after,
        ) && s.negotiated.0 & 0x10u32 == 0x10u32 ==> after == store && match s.transfer {
            TransferV::Sending { invoke_id: id, service: Outbound::Get, block, .. } => if invoke_id
                == id && number == block {
                s.sends_block(x)
            } else {
                free(s).sends(
                    ApduV::GetResponse(
                        GetResponseV::Normal {
                            invoke_id,
                            result: GetDataResultV::Error(DataAccessResult::DataBlockNumberInvalid),
                        },
                    ),
                    x,
                )
            },
            _ => s.sends(
                ApduV::GetResponse(
                    GetResponseV::Normal {
                        invoke_id,
                        result: GetDataResultV::Error(DataAccessResult::NoLongGetInProgress),
                    },
                ),
                x,
            ),
        },
        s.serves(
            store,
            ApduV::ActionRequest(ActionRequestV::NextPblock { invoke_id, block_number: number }),
            x,
            after,
        ) && s.negotiated.0 & 0x01u32 == 0x01u32 ==> after == store && match s.transfer {
            TransferV::Sending { invoke_id: id, service: Outbound::Action, block, .. } =>
            if invoke_id == id && number == block {
                s.sends_block(x)
            } else {
                told_of(
                    s,
                    invoke_id,
                    Err::<Option<Seq<u8>>, ActionResult>(ActionResult::DataBlockUnavailable),
                    x,
                )
            },
            _ => s.sends(
                ApduV::ActionResponse(
                    ActionResponseV::Normal {
                        invoke_id,
                        response: ActionResponseWithOptionalDataV {
                            result: ActionResult::NoLongActionInProgress,
                            return_parameters: None,
                        },
                    },
                ),
                x,
            ),
        },
{
}

/// The last block of a write of several attributes hands the store for each of them its value,
/// in order, and tells the client of each what came of it, beside the number of the block.
pub proof fn law_last_block_of_list_is_answered<P: CryptoProvider, S: ObjectStore>(
    s: ServerV<P>,
    store: S,
    invoke_id: InvokeId,
    kept: Seq<u8>,
    so_far: Seq<u8>,
    last: u32,
    block: DataBlockSAV,
    items: Seq<AttributeDescriptorWithSelectionV>,
    values: Seq<DataV>,
    x: ExchangeV<P>,
    after: S,
)
    requires
        s.serves(
            store,
            ApduV::SetRequest(SetRequestV::WithDataBlock { invoke_id, block }),
            x,
            after,
        ),
        s.state is Associated,
        s.negotiated.0 & 0x08u32 == 0x08u32,
        s.transfer == (TransferV::ReceivingSet {
            invoke_id,
            target: SetTargetV::Many(kept),
            value: so_far,
            block: last,
        }),
        block.last_block,
        block.block_number == last + 1,
        kept.len() + so_far.len() + block.raw_data.len() <= x.n,
        whole(p_list::<AttributeDescriptorWithSelection>(Cursor::start(kept))) == Ok::<
            Seq<AttributeDescriptorWithSelectionV>,
            Error,
        >(items),
        whole(p_list::<Data>(Cursor::start(so_far + block.raw_data))) == Ok::<Seq<DataV>, Error>(
            values,
        ),
    ensures
        items.len() != values.len() ==> after == store && free(s).sends(
            ApduV::SetResponse(
                SetResponseV::Normal { invoke_id, result: DataAccessResult::TypeUnmatched },
            ),
            x,
        ),
        items.len() == values.len() ==> exists|stores: Seq<S>, outcomes: Seq<DataAccessResult>|
            #![trigger stores.len(), outcomes.len()]
            {
                &&& stores.len() == outcomes.len() + 1
                &&& stores[0] == store
                &&& stores.last() == after
                &&& outcomes.len() == items.len()
                &&& forall|i: int|
                    0 <= i < outcomes.len() ==> writes_to(
                        stores[i],
                        items[i].descriptor,
                        items[i].access,
                        values[i],
                        #[trigger] outcomes[i],
                        stores[i + 1],
                    )
                &&& free(s).sends(
                    ApduV::SetResponse(
                        SetResponseV::LastDataBlockWithList {
                            invoke_id,
                            results: outcomes,
                            block_number: block.block_number,
                        },
                    ),
                    x,
                )
            },
{
    if items.len() == values.len() {
        assert(s.idle().sets_each_last(
            store,
            invoke_id,
            items,
            values,
            block.block_number,
            x,
            after,
        ));
        let (stores, outcomes) = choose|stores: Seq<S>, outcomes: Seq<DataAccessResult>|
            {
                &&& #[trigger] super::write::writes_each(items, values, stores, outcomes)
                &&& stores[0] == store
                &&& stores.last() == after
                &&& outcomes.len() == items.len()
                &&& s.idle().sends(
                    ApduV::SetResponse(
                        SetResponseV::LastDataBlockWithList {
                            invoke_id,
                            results: outcomes,
                            block_number: block.block_number,
                        },
                    ),
                    x,
                )
            };
        assert(stores.len() == outcomes.len() + 1);
    }
}

/// The blocks of a parameter are kept as those of a value are, and the last of them runs the
/// method that the first one named, with the parameter that all of them make up.
pub proof fn law_parameter_blocks_are_answered<P: CryptoProvider, S: ObjectStore>(
    s: ServerV<P>,
    store: S,
    invoke_id: InvokeId,
    id: InvokeId,
    d: MethodDescriptorV,
    so_far: Seq<u8>,
    last: u32,
    block: DataBlockSAV,
    x: ExchangeV<P>,
    after: S,
)
    requires
        s.serves(
            store,
            ApduV::ActionRequest(ActionRequestV::WithPblock { invoke_id, block }),
            x,
            after,
        ),
        s.state is Associated,
        s.negotiated.0 & 0x01u32 == 0x01u32,
        s.transfer == (TransferV::ReceivingAction {
            invoke_id: id,
            descriptor: d,
            value: so_far,
            block: last,
        }),
        last < u32::MAX,
    ensures
        !block.last_block ==> after == store,
        invoke_id != id || block.block_number != last + 1 ==> after == store && told_of(
            s,
            invoke_id,
            Err::<Option<Seq<u8>>, ActionResult>(ActionResult::DataBlockUnavailable),
            x,
        ),
        invoke_id == id && block.block_number == last + 1 && so_far.len() + block.raw_data.len()
            > x.n ==> after == store && told_of(
            s,
            invoke_id,
            Err::<Option<Seq<u8>>, ActionResult>(ActionResult::LongActionAborted),
            x,
        ),
        invoke_id == id && block.block_number == last + 1 && so_far.len() + block.raw_data.len()
            <= x.n ==> if block.last_block {
            whole(p_data(Cursor::start(so_far + block.raw_data), 0)) matches Ok(v) ==> exists|
                outcome: MethodResult<Seq<u8>>,
            | #[trigger]
                invokes(store, d, Some(v), x.n, outcome, after) && told_of(
                    s,
                    invoke_id,
                    outcome,
                    x,
                )
        } else {
            taking(s, invoke_id, d, so_far + block.raw_data, block.block_number).sends(
                ApduV::ActionResponse(
                    ActionResponseV::NextPblock { invoke_id, block_number: block.block_number },
                ),
                x,
            )
        },
{
    if let Ok(v) = whole(p_data(Cursor::start(so_far + block.raw_data), 0)) {
        if invoke_id == id && block.block_number == last + 1 && so_far.len() + block.raw_data.len()
            <= x.n && block.last_block {
            let outcome = choose|outcome: MethodResult<Seq<u8>>| #[trigger]
                invokes(store, d, Some(v), x.n, outcome, after) && s.idle().answers_action(
                    invoke_id,
                    outcome,
                    x,
                );
            assert(invokes(store, d, Some(v), x.n, outcome, after));
        }
    }
}

/// A server that has so much of a parameter that comes in blocks.
pub open spec fn taking<P>(
    s: ServerV<P>,
    invoke_id: InvokeId,
    descriptor: MethodDescriptorV,
    value: Seq<u8>,
    block: u32,
) -> ServerV<P> {
    ServerV { transfer: TransferV::ReceivingAction { invoke_id, descriptor, value, block }, ..s }
}

/// The first block of a parameter begins with nothing before it, where blocks were agreed to.
pub proof fn law_first_parameter_block<P: CryptoProvider, S: ObjectStore>(
    s: ServerV<P>,
    store: S,
    invoke_id: InvokeId,
    d: MethodDescriptorV,
    block: DataBlockSAV,
    x: ExchangeV<P>,
    after: S,
)
    requires
        s.serves(
            store,
            ApduV::ActionRequest(
                ActionRequestV::WithFirstPblock { invoke_id, descriptor: d, block },
            ),
            x,
            after,
        ),
        s.state is Associated,
        s.negotiated.0 & 0x01u32 == 0x01u32,
    ensures
        s.negotiated.0 & 0x400u32 != 0x400u32 ==> after == store && told_of(
            s,
            invoke_id,
            Err::<Option<Seq<u8>>, ActionResult>(ActionResult::DataBlockUnavailable),
            x,
        ),
        s.negotiated.0 & 0x400u32 == 0x400u32 ==> taking(
            s,
            invoke_id,
            d,
            Seq::empty(),
            0,
        ).takes_action(store, invoke_id, block, x, after),
{
}

/// A block of a long answer carries the next bytes, as many as the client can receive with
/// what stands round them, and the server then goes on behind them.
pub proof fn law_next_bytes_go_out<P: CryptoProvider>(
    s: ServerV<P>,
    invoke_id: InvokeId,
    service: Outbound,
    bytes: Seq<u8>,
    sent: nat,
    block: u32,
    x: ExchangeV<P>,
)
    requires
        s.transfer == (TransferV::Sending { invoke_id, service, bytes, sent, block }),
        s.sends_block(x),
        x.r is Ok,
        sent <= bytes.len(),
        s.fragment(x.n) > 0,
        block < u32::MAX,
    ensures
        s.fragment(x.n) == if s.client_max - 14 - cost(s.config) < x.n {
            s.client_max - 14 - cost(s.config)
        } else {
            x.n as int
        },
        ({
            let end = if sent + s.fragment(x.n) < bytes.len() {
                sent + s.fragment(x.n)
            } else {
                bytes.len()
            };
            let last = end == bytes.len();
            &&& s.sends(
                super::model::block_apdu_v(
                    invoke_id,
                    service,
                    last,
                    (block + 1) as u32,
                    bytes.subrange(sent as int, end as int),
                ),
                with_transfer(x, s.transfer),
            )
            &&& x.next.transfer == if last {
                TransferV::Idle
            } else {
                TransferV::Sending {
                    invoke_id,
                    service,
                    bytes,
                    sent: end,
                    block: (block + 1) as u32,
                }
            }
        }),
{
}

/// An exchange after which the server has another transfer in flight.
pub open spec fn with_transfer<P>(x: ExchangeV<P>, transfer: TransferV) -> ExchangeV<P> {
    ExchangeV { next: ServerV { transfer, ..x.next }, ..x }
}

/// A server begins with nothing: no association, nothing agreed to, nothing in flight; and
/// where one ends, everything of it is forgotten.
pub proof fn law_nothing_is_left_over<P: CryptoProvider>(
    config: ServerConfig,
    crypto: P,
    s: ServerV<P>,
)
    ensures
        ({
            let n = ServerV::start(config, crypto);
            &&& n.state is Idle && n.transfer is Idle
            &&& n.negotiated.0 == 0 && !n.ciphered
            &&& n.client_title is None && n.owner is None
            &&& n.config == config && n.crypto == crypto
            &&& n.counter == config.invocation_counter
            &&& n.window.highest is None && n.window.seen.is_empty()
            &&& !n.policy.dedicated()
        }),
        ({
            let n = s.cleared(crypto);
            &&& n.transfer is Idle
            &&& n.negotiated.0 == 0 && !n.ciphered
            &&& n.client_title is None
            &&& n.client_challenge.len() == 0 && n.server_challenge.len() == 0
            &&& n.crypto == crypto && !n.policy.dedicated()
            &&& n.client_max == s.config.max_pdu_size
        }),
{
}

/// A server that is reset has no association and nothing of the last one, but keeps its
/// objects' rights to be told, its counter and its peer's window.
pub proof fn law_reset_forgets<S: ObjectStore, P: CryptoProvider, const N: usize>()
    ensures
        forall|s: &mut Server<S, P, N>|
            #![trigger call_ensures(Server::<S, P, N>::reset, (s,), ())]
            call_ensures(Server::<S, P, N>::reset, (s,), ()) ==> {
                &&& final(s)@.state is Idle && final(s)@.transfer is Idle
                &&& final(s)@.negotiated.0 == 0
                &&& final(s)@.client_title is None
                &&& !final(s)@.policy.dedicated()
                &&& final(s)@.counter == (*s)@.counter
                &&& final(s)@.window == (*s)@.window && final(s)@.owner == (*s)@.owner
                &&& final(s)@.config == (*s)@.config
                &&& noted((*s).objects(), AuditEvent::Released, final(s).objects())
            },
{
}

/// A window that is resumed for a peer is that peer's, and refuses everything up to the
/// counter that it is resumed from and nothing above it.
pub proof fn law_resumed_window_refuses<S: ObjectStore, P: CryptoProvider, const N: usize>(
    peer: SystemTitle,
    highest: u32,
    v: u32,
)
    ensures
        forall|s: &mut Server<S, P, N>|
            #![trigger call_ensures(Server::<S, P, N>::resume_replay_window, (s, peer, highest), ())]
            call_ensures(Server::<S, P, N>::resume_replay_window, (s, peer, highest), ()) ==> {
                &&& final(s)@.owner == Some(peer@)
                &&& final(s)@.window.admits(v) <==> v > highest
                &&& final(s)@.counter == (*s)@.counter && final(s)@.state == (*s)@.state
                &&& final(s).objects() == (*s).objects()
            },
        forall|width: u32, w: ReplayWindow|
            #![trigger call_ensures(ReplayWindow::resumed, (highest, width), w)]
            call_ensures(ReplayWindow::resumed, (highest, width), w) ==> (w@.admits(v) <==> v
                > highest) && w@.highest == Some(highest),
{
}

/// A new server is set up as it was told to be, with those objects; and one with no settings
/// of its own is for the public, in the clear, by logical names.
pub proof fn law_new_server<S: ObjectStore, P: CryptoProvider, const N: usize>(
    config: ServerConfig,
    store: S,
    provider: P,
)
    ensures
        forall|s: Server<S, P, N>|
            #![trigger call_ensures(Server::<S, P, N>::new, (config, store, provider), s)]
            call_ensures(Server::<S, P, N>::new, (config, store, provider), s) ==> {
                &&& s.objects() == store
                &&& s@.config == config && s@.crypto == provider
                &&& s@.state is Idle && s@.negotiated.0 == 0 && s@.transfer is Idle
                &&& s@.counter == config.invocation_counter
            },
        forall|c: ServerConfig|
            #![trigger call_ensures(<ServerConfig as Default>::default, (), c)]
            call_ensures(<ServerConfig as Default>::default, (), c) ==> {
                &&& c.system_title is None && c.password is None
                &&& c.mechanism is Lowest && c.referencing is LogicalName
                &&& !c.security.authenticated && !c.security.encrypted
                &&& c.max_pdu_size == 1024 && c.challenge_len == 16
                &&& c.conformance.0 == 0x40_1E5D
                &&& c.invocation_counter == 0 && c.replay_window == 0
            },
{
}

/// A read or a write by short name of nothing, or of more than sixty-four names, is not
/// possible; the next block of a long read is asked for by the number of the last.
pub proof fn law_short_read_limits<P: CryptoProvider, S: ObjectStore>(
    s: ServerV<P>,
    store: S,
    entries: Seq<VariableAccessV>,
    x: ExchangeV<P>,
    after: S,
)
    requires
        s.serves(store, ApduV::ReadRequest(ReadRequestV { specification: entries }), x, after),
        s.state is Associated,
        s.negotiated.0 & 0x10_0000u32 == 0x10_0000u32,
    ensures
        entries.len() == 0 || entries.len() > 64 ==> after == store && s.excepts(
            StateError::ServiceNotAllowed,
            ServiceError::OperationNotPossible,
            x,
        ),
        entries.len() == 1 && entries[0] is BlockNumber ==> after == store && match s.transfer {
            TransferV::Sending { service: Outbound::Read, block, .. } =>
                if entries[0]->BlockNumber_0
                == block {
                s.sends_block(x)
            } else {
                free(s).sends(
                    ApduV::ReadResponse(
                        ReadResponseV {
                            results: seq![
                                ReadResultV::Error(DataAccessResult::DataBlockNumberInvalid),
                            ],
                        },
                    ),
                    x,
                )
            },
            _ => s.sends(
                ApduV::ReadResponse(
                    ReadResponseV {
                        results: seq![ReadResultV::Error(DataAccessResult::NoLongGetInProgress)],
                    },
                ),
                x,
            ),
        },
{
}

/// The first block of a write of several attributes is taken where lists and blocks were both
/// agreed to and there are no more than sixty-four attributes; it is kept whole until the
/// last.
pub proof fn law_first_block_of_list<P: CryptoProvider, S: ObjectStore>(
    s: ServerV<P>,
    store: S,
    invoke_id: InvokeId,
    descriptors: Seq<AttributeDescriptorWithSelectionV>,
    block: DataBlockSAV,
    x: ExchangeV<P>,
    after: S,
)
    requires
        s.serves(
            store,
            ApduV::SetRequest(
                SetRequestV::WithListAndFirstDataBlock { invoke_id, descriptors, block },
            ),
            x,
            after,
        ),
        s.state is Associated,
        s.negotiated.0 & 0x08u32 == 0x08u32,
    ensures
        ({
            let list = enc_list::<AttributeDescriptorWithSelection>(descriptors);
            if s.negotiated.0 & 0x200u32 != 0x200u32 || s.negotiated.0 & 0x800u32 != 0x800u32 {
                after == store && free(s).sends(
                    ApduV::SetResponse(
                        SetResponseV::Normal {
                            invoke_id,
                            result: DataAccessResult::DataBlockUnavailable,
                        },
                    ),
                    x,
                )
            } else if descriptors.len() > 64 {
                after == store && free(s).sends(
                    ApduV::SetResponse(
                        SetResponseV::Normal { invoke_id, result: DataAccessResult::OtherReason },
                    ),
                    x,
                )
            } else {
                fits_list::<AttributeDescriptorWithSelection>(descriptors) && list.len() <= x.n
                    ==> receiving(s, invoke_id, SetTargetV::Many(list), Seq::empty(), 0).takes_set(
                    store,
                    invoke_id,
                    block,
                    x,
                    after,
                )
            }
        }),
{
}

/// A value that comes in blocks is not taken where blocks were not agreed to, nor further than
/// there is room to keep it.
pub proof fn law_blocks_need_agreement_and_room<P: CryptoProvider, S: ObjectStore>(
    s: ServerV<P>,
    store: S,
    invoke_id: InvokeId,
    d: AttributeDescriptorV,
    access: Option<SelectiveAccessV>,
    block: DataBlockSAV,
    x: ExchangeV<P>,
    after: S,
)
    requires
        s.state is Associated,
        s.negotiated.0 & 0x08u32 == 0x08u32,
    ensures
        s.negotiated.0 & 0x800u32 != 0x800u32 && s.serves(
            store,
            ApduV::SetRequest(
                SetRequestV::WithFirstDataBlock { invoke_id, descriptor: d, access, block },
            ),
            x,
            after,
        ) ==> after == store && free(s).sends(
            ApduV::SetResponse(
                SetResponseV::Normal { invoke_id, result: DataAccessResult::DataBlockUnavailable },
            ),
            x,
        ),
        s.serves(store, ApduV::SetRequest(SetRequestV::WithDataBlock { invoke_id, block }), x,
            after)
            ==> match s.transfer {
            TransferV::ReceivingSet { invoke_id: id, target, value, block: last } => invoke_id == id
                && last < u32::MAX && block.block_number == last + 1 && target.header().len()
                + value.len() + block.raw_data.len() > x.n ==> after == store && free(s).sends(
                ApduV::SetResponse(
                    SetResponseV::Normal { invoke_id, result: DataAccessResult::LongSetAborted },
                ),
                x,
            ),
            _ => after == store && s.sends(
                ApduV::SetResponse(
                    SetResponseV::Normal {
                        invoke_id,
                        result: DataAccessResult::NoLongSetInProgress,
                    },
                ),
                x,
            ),
        },
{
}

} // verus!
