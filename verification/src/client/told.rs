//! What a session says for each request, and what it makes of each answer.

use vstd::prelude::*;

use super::session::{AssociationStep, ClientConfig, ClientSession, SessionState};
use crate::codec::{Error, Result};
use crate::cosem::class::InterfaceClass;
use crate::obis::Obis;
use crate::security::CryptoProvider;
#[allow(unused_imports)]
use super::blocks::{BlockCollector, BlockSender, CollectorV, SenderV, TargetV};
#[allow(unused_imports)]
use super::requests::{
    any_selected, item_data, parameter_data, selection, specifications, AccessItem, AccessItemV,
};
#[allow(unused_imports)]
use super::session::{
    echoed_id, plain_from_server, plain_initiate, response_of, Response, ResponseV, SessionV,
};
#[allow(unused_imports)]
use crate::acse::{
    law_release_bytes, AareV, ApplicationContext, Referencing, ReleaseReason, Rlre, Rlrq,
};
#[allow(unused_imports)]
use crate::axdr::data::{law_data_round_trip, Data, DataV};
#[allow(unused_imports)]
use crate::codec::{whole, Cursor, Encode, ErrorKind};
#[allow(unused_imports)]
use crate::security::protect::{hls_check_of, hls_reply_of, protected_by};
#[allow(unused_imports)]
use crate::security::wrap::{wrapped_by, OutgoingV};
#[allow(unused_imports)]
use crate::server::model::{plain_from_client, plain_request};
#[allow(unused_imports)]
use crate::xdlms::apdu::ApduV;
#[allow(unused_imports)]
use crate::xdlms::ciphering::CipheredServiceV;
#[allow(unused_imports)]
use crate::xdlms::ids::{InvokeId, LongInvokeId, OptionalDateTime};
#[allow(unused_imports)]
use crate::xdlms::initiate::{Conformance, InitiateResponseV};
#[allow(unused_imports)]
use crate::xdlms::list::{enc_list, opt_view, views};
#[allow(unused_imports)]
use crate::xdlms::result::{ActionResult, DataAccessResult, ExceptionResponse};
#[allow(unused_imports)]
use crate::xdlms::service::{
    AccessRequestSpecificationV, AccessRequestV, AccessResponseV, ActionRequestV, ActionResponseV,
    ActionResponseWithOptionalDataV, AttributeDescriptor, AttributeDescriptorV,
    AttributeDescriptorWithSelection, AttributeDescriptorWithSelectionV, BlockResultV, DataBlockGV,
    DataBlockSAV, GetDataResultV, GetRequestV, GetResponseV, MethodDescriptor, MethodDescriptorV,
    ReadRequestV, ReadResponseV, SelectiveAccess, SelectiveAccessV, SetRequestV, SetResponseV,
    UnconfirmedWriteRequestV, VariableAccess, WriteRequestV, WriteResponseV,
};
#[allow(unused_imports)]
use crate::xdlms::tag::ApduTag;

verus! {

/// A write that the server refuses is never reported as done: it is done exactly where the
/// server says so, and otherwise the caller is told the reason, whether the value went in one
/// piece or in blocks.
pub proof fn law_refused_write_is_not_done(invoke_id: InvokeId, result: DataAccessResult, n: u32)
    ensures
        response_of(ApduV::SetResponse(SetResponseV::Normal { invoke_id, result })) == Some(
            if result is Success {
                ResponseV::Done
            } else {
                ResponseV::DataError(result)
            },
        ),
        response_of(
            ApduV::SetResponse(SetResponseV::LastDataBlock { invoke_id, result, block_number: n }),
        ) == Some(
            if result is Success {
                ResponseV::Done
            } else {
                ResponseV::DataError(result)
            },
        ),
        response_of(
            ApduV::SetResponse(SetResponseV::DataBlock { invoke_id, block_number: n }),
        ) == Some(ResponseV::BlockAccepted { number: n }),
{
    reveal(response_of);
}

/// What is reported of a read is what the server answered: the value or the reason, one by
/// one and in order for a list, and the bytes, the number and whether it is the last for a
/// block.
pub proof fn law_read_is_reported(
    invoke_id: InvokeId,
    value: DataV,
    e: DataAccessResult,
    results: Seq<GetDataResultV>,
    last_block: bool,
    n: u32,
    data: Seq<u8>,
)
    ensures
        response_of(
            ApduV::GetResponse(
                GetResponseV::Normal { invoke_id, result: GetDataResultV::Data(value) },
            ),
        ) == Some(ResponseV::Data(value)),
        response_of(
            ApduV::GetResponse(GetResponseV::Normal { invoke_id,
                result: GetDataResultV::Error(e) }),
        ) == Some(ResponseV::DataError(e)),
        response_of(ApduV::GetResponse(GetResponseV::WithList { invoke_id, results })) == Some(
            ResponseV::DataList(results),
        ),
        response_of(
            ApduV::GetResponse(
                GetResponseV::WithDataBlock {
                    invoke_id,
                    block: DataBlockGV {
                        last_block,
                        block_number: n,
                        result: BlockResultV::RawData(data),
                    },
                },
            ),
        ) == Some(ResponseV::Block { last: last_block, number: n, data }),
        response_of(
            ApduV::GetResponse(
                GetResponseV::WithDataBlock {
                    invoke_id,
                    block: DataBlockGV {
                        last_block,
                        block_number: n,
                        result: BlockResultV::Error(e),
                    },
                },
            ),
        ) == Some(ResponseV::DataError(e)),
{
    reveal(response_of);
}

/// What is reported of an invocation is what the server answered: the code, and the value
/// where there is one; and a method that failed is not reported to have run.
pub proof fn law_invocation_is_reported(
    invoke_id: InvokeId,
    result: ActionResult,
    value: Option<DataV>,
    responses: Seq<ActionResponseWithOptionalDataV>,
    block: DataBlockSAV,
    n: u32,
)
    ensures
        response_of(
            ApduV::ActionResponse(
                ActionResponseV::Normal {
                    invoke_id,
                    response: ActionResponseWithOptionalDataV {
                        result,
                        return_parameters: match value {
                            Some(v) => Some(GetDataResultV::Data(v)),
                            None => None,
                        },
                    },
                },
            ),
        ) == Some(ResponseV::ActionResult { result, value }),
        response_of(
            ApduV::ActionResponse(ActionResponseV::WithList { invoke_id, responses }),
        ) == Some(ResponseV::ActionResults(responses)),
        response_of(ApduV::ActionResponse(ActionResponseV::WithPblock { invoke_id, block }))
            == Some(
            ResponseV::Block {
                last: block.last_block,
                number: block.block_number,
                data: block.raw_data,
            },
        ),
        response_of(
            ApduV::ActionResponse(ActionResponseV::NextPblock { invoke_id, block_number: n }),
        ) == Some(ResponseV::BlockAccepted { number: n }),
{
    reveal(response_of);
}

/// What is reported of lists, of the access service and of short names is what the server
/// answered, item by item; and a refusal of the request as such is reported as one.
pub proof fn law_lists_are_reported(
    invoke_id: InvokeId,
    results: Seq<DataAccessResult>,
    n: u32,
    access: AccessResponseV,
    read: ReadResponseV,
    write: WriteResponseV,
    x: ExceptionResponse,
)
    ensures
        response_of(ApduV::SetResponse(SetResponseV::WithList { invoke_id, results })) == Some(
            ResponseV::ResultList(results),
        ),
        response_of(
            ApduV::SetResponse(
                SetResponseV::LastDataBlockWithList { invoke_id, results, block_number: n },
            ),
        ) == Some(ResponseV::ResultList(results)),
        response_of(ApduV::AccessResponse(access)) == Some(
            ResponseV::Access { data: access.data, results: access.response_specification },
        ),
        response_of(ApduV::ReadResponse(read)) == Some(ResponseV::ReadResults(read.results)),
        response_of(ApduV::WriteResponse(write)) == Some(ResponseV::WriteResults(write.results)),
        response_of(ApduV::ExceptionResponse(x)) == Some(ResponseV::Exception(x)),
{
    reveal(response_of);
}

/// An answer is taken only for the invocation that is outstanding: one that carries another
/// number is refused, and what it says is not reported. Only a release changes what the
/// session is doing.
pub proof fn law_answer_is_to_the_question<P: CryptoProvider>(s: SessionV<P>, a: ApduV)
    ensures
        ({
            let got = match a {
                ApduV::GetResponse(GetResponseV::Normal { invoke_id, .. }) => Some(invoke_id),
                ApduV::GetResponse(GetResponseV::WithDataBlock { invoke_id, .. }) =>
                    Some(invoke_id),
                ApduV::GetResponse(GetResponseV::WithList { invoke_id, .. }) => Some(invoke_id),
                ApduV::SetResponse(SetResponseV::Normal { invoke_id, .. }) => Some(invoke_id),
                ApduV::SetResponse(SetResponseV::DataBlock { invoke_id, .. }) => Some(invoke_id),
                ApduV::SetResponse(SetResponseV::LastDataBlock { invoke_id, .. }) =>
                    Some(invoke_id),
                ApduV::SetResponse(SetResponseV::LastDataBlockWithList { invoke_id, .. }) => Some(
                    invoke_id,
                ),
                ApduV::SetResponse(SetResponseV::WithList { invoke_id, .. }) => Some(invoke_id),
                ApduV::ActionResponse(ActionResponseV::Normal { invoke_id, .. }) => Some(invoke_id),
                ApduV::ActionResponse(ActionResponseV::WithPblock { invoke_id, .. }) => Some(
                    invoke_id,
                ),
                ApduV::ActionResponse(ActionResponseV::WithList { invoke_id, .. }) => Some(
                    invoke_id,
                ),
                ApduV::ActionResponse(ActionResponseV::NextPblock { invoke_id, .. }) => Some(
                    invoke_id,
                ),
                _ => None,
            };
            let other = s.outstanding is Some && got is Some && (got->0).0 % 16
                != (s.outstanding->0).0 % 16;
            &&& other ==> s.responds(a) == (
                Err::<ResponseV, Error>(Error { kind: ErrorKind::UnexpectedMessage, offset: 0 }),
                s,
            )
            &&& !other ==> match response_of(a) {
                Some(r) => s.responds(a).0 == Ok::<ResponseV, Error>(r),
                None => s.responds(a).0 is Err,
            }
            &&& s.responds(a).1 == if !other && a is Rlre {
                in_state(s, SessionState::Closed)
            } else {
                s
            }
        }),
        a is GetRequest || a is SetRequest || a is ActionRequest || a is DataNotification
            ==> s.responds(a).0 is Err,
{
    reveal(response_of);
    reveal(echoed_id);
    assert(forall|b: u8| b & 0x0F == b % 16) by (bit_vector);
}

/// A session in another state.
pub open spec fn in_state<P>(s: SessionV<P>, state: SessionState) -> SessionV<P> {
    SessionV { state, ..s }
}

/// Whether the server has agreed to a flag, or has not been asked.
pub open spec fn may<P>(s: SessionV<P>, flag: u32) -> bool {
    s.negotiated matches Some(n) ==> n.negotiated_conformance.0 & flag == flag
}

/// The number of the next invocation: one more, from zero again after fifteen, and marked as
/// one that is to be answered.
pub open spec fn next_id<P>(s: SessionV<P>) -> InvokeId {
    InvokeId((0x40 + (s.invoke_id as int + 1) % 16) as u8)
}

/// A session that has begun the next invocation.
pub open spec fn numbered<P>(s: SessionV<P>) -> SessionV<P> {
    SessionV {
        invoke_id: ((s.invoke_id as int + 1) % 16) as u8,
        outstanding: Some(next_id(s)),
        ..s
    }
}

/// The number of an invocation is the next of sixteen, and its answer is awaited.
pub proof fn law_invocations_are_numbered<P: CryptoProvider>(s: SessionV<P>)
    ensures
        s.fresh() == numbered(s),
        s.fresh_long() == (SessionV { outstanding: None, ..numbered(s) }),
        s.fresh_long().invoke_id < 16,
        LongInvokeId::new(s.fresh_long().invoke_id as u32).confirmed() == LongInvokeId(
            (0x4000_0000 + s.fresh_long().invoke_id) as u32,
        ),
        s.quiet() == (SessionV { outstanding: None, ..s }),
{
    let b = s.invoke_id;
    let c = b.wrapping_add(1);
    assert(c & 0x0F == c % 16) by (bit_vector);
    let d = (c & 0x0F) as u8;
    assert((d & 0x0F) | 0x40 == d + 0x40) by (bit_vector)
        requires
            d < 16,
    ;
    let e = d as u32;
    assert((e & 0x00FF_FFFF) | 0x4000_0000 == e + 0x4000_0000) by (bit_vector)
        requires
            e < 16,
    ;
    assert(c == (b as int + 1) % 256);
    assert(((b as int + 1) % 256) % 16 == (b as int + 1) % 16);
}

/// Whether a message stands at the start of a buffer, as it is or protected under the next
/// counter, the rest of which is as it was.
pub open spec fn went_out<P: CryptoProvider>(
    s: SessionV<P>,
    apdu: ApduV,
    before: Seq<u8>,
    after: Seq<u8>,
    then: SessionV<P>,
    n: usize,
) -> bool {
    &&& n <= before.len()
    &&& after.skip(n as int) == before.skip(n as int)
    &&& if s.config.security.is_none() {
        then == s && after.take(n as int) == apdu.enc()
    } else {
        &&& s.config.system_title is Some
        &&& then.counter == s.counter + 1
        &&& then == SessionV { counter: then.counter, ..s }
        &&& wrapped_by(
            &s.crypto,
            OutgoingV {
                system_title: s.config.system_title->0@,
                invocation_counter: then.counter,
                auth_key: s.crypto.auth_bytes(),
                policy: s.policy,
                general_allowed: s.negotiated is Some && may(s, 0x40_0000),
            },
            apdu.enc(),
            before.len(),
        ) == Ok::<Seq<u8>, Error>(after.take(n as int))
    }
}

/// What is sent has gone out.
pub proof fn law_sent_goes_out<P: CryptoProvider>(
    s: SessionV<P>,
    apdu: ApduV,
    n: nat,
    before: Seq<u8>,
    after: Seq<u8>,
    then: SessionV<P>,
    r: Result<usize>,
)
    requires
        s.sends(apdu, n, before, after, then, r),
        before.len() <= usize::MAX,
    ensures
        r matches Ok(k) ==> went_out(s, apdu, before, after, then, k),
        r is Err ==> after == before,
        s.config.security.is_none() ==> (r is Ok <==> apdu.fits() && apdu.enc().len() <= n
            && apdu.enc().len() <= before.len()),
{
    if let Ok(k) = r {
        let w = s.emitted(apdu.enc(), before.len()).0->Ok_0;
        assert(after.take(k as int) =~= w);
        assert(after.skip(k as int) =~= before.skip(k as int));
    }
}

/// Whether asking comes to this: it is refused outside an association, or where the server
/// did not agree to all of the flags; and otherwise what is said is the request.
pub open spec fn asked<P: CryptoProvider>(
    s: SessionV<P>,
    flags: Seq<u32>,
    begun: SessionV<P>,
    apdu: ApduV,
    before: Seq<u8>,
    after: Seq<u8>,
    then: SessionV<P>,
    r: Result<usize>,
) -> bool {
    if !(s.state is Associated) {
        then == s && after == before && r == Err::<usize, Error>(
            Error { kind: ErrorKind::UnexpectedMessage, offset: 0 },
        )
    } else if exists|i: int| 0 <= i < flags.len() && !may(s, #[trigger] flags[i]) {
        then == s && after == before && r == Err::<usize, Error>(
            Error { kind: ErrorKind::Unsupported, offset: 0 },
        )
    } else {
        &&& r matches Ok(k) ==> went_out(begun, apdu, before, after, then, k)
        &&& r is Err ==> after == before
        &&& r is Err && s.config.security.is_none() ==> then == begun
    }
}

proof fn lemma_asked<P: CryptoProvider>(
    s: SessionV<P>,
    needed: Seq<Conformance>,
    flags: Seq<u32>,
    begun: SessionV<P>,
    apdu: ApduV,
    n: nat,
    before: Seq<u8>,
    after: Seq<u8>,
    then: SessionV<P>,
    r: Result<usize>,
)
    requires
        s.asks(needed, begun, apdu, n, before, after, then, r),
        before.len() <= usize::MAX,
        begun.config == s.config,
        needed.len() == flags.len(),
        forall|i: int| 0 <= i < flags.len() ==> (#[trigger] needed[i]).0 == flags[i],
    ensures
        asked(s, flags, begun, apdu, before, after, then, r),
{
    if s.not_ready(needed) is None {
        law_sent_goes_out(begun, apdu, n, before, after, then, r);
        assert forall|i: int| 0 <= i < flags.len() implies may(s, #[trigger] flags[i]) by {
            assert(s.agreed(needed[i]));
        }
    } else if s.state is Associated {
        let i = choose|i: int| 0 <= i < needed.len() && !s.agreed(#[trigger] needed[i]);
        assert(!may(s, flags[i]));
    }
}

/// A read of one attribute asks for that attribute and that part of it.
pub proof fn law_get_asks_for_it<P: CryptoProvider,
    const N: usize>(d: AttributeDescriptor, access: Option<SelectiveAccess<'_>>)
    ensures
        forall|s: &mut ClientSession<P, N>, out: &mut [u8], r: Result<usize>|
            #![trigger call_ensures(ClientSession::<P, N>::get_request, (s, d, access, out), r)]
            call_ensures(ClientSession::<P, N>::get_request, (s, d, access, out), r)
                && (*out)@.len() <= usize::MAX ==> asked(
            (*s)@,
            if access is Some {
                seq![0x10u32, 0x04u32]
            } else {
                seq![0x10u32]
            },
            numbered((*s)@),
            ApduV::GetRequest(GetRequestV::Normal { invoke_id: next_id((*s)@), descriptor: d@,
                access: opt_view(access) }),
            (*out)@,
            final(out)@,
            final(s)@,
            r,
        ),
{
    assert forall|s: &mut ClientSession<P, N>, out: &mut [u8], r: Result<usize>|
        #![trigger call_ensures(ClientSession::<P, N>::get_request, (s, d, access, out), r)]
        call_ensures(ClientSession::<P, N>::get_request, (s, d, access, out), r)
            && (*out)@.len() <= usize::MAX implies asked(
        (*s)@,
        if access is Some {
            seq![0x10u32, 0x04u32]
        } else {
            seq![0x10u32]
        },
        numbered((*s)@),
        ApduV::GetRequest(GetRequestV::Normal { invoke_id: next_id((*s)@), descriptor: d@,
            access: opt_view(access) }),
        (*out)@,
        final(out)@,
        final(s)@,
        r,
    ) by {
        law_invocations_are_numbered((*s)@);
        lemma_asked(
            (*s)@,
            seq![Conformance::GET()] + selection(access is Some),
            if access is Some {
                seq![0x10u32, 0x04u32]
            } else {
                seq![0x10u32]
            },
            numbered((*s)@),
            ApduV::GetRequest(GetRequestV::Normal { invoke_id: next_id((*s)@), descriptor: d@,
                access: opt_view(access) }),
            N as nat,
            (*out)@,
            final(out)@,
            final(s)@,
            r,
        );
    }
}

/// A write of one attribute hands over that value for that attribute and that part of it.
pub proof fn law_set_hands_it_over<P: CryptoProvider,
    const N: usize>(d: AttributeDescriptor, access: Option<SelectiveAccess<'_>>, value: Data<'_>)
    ensures
        forall|s: &mut ClientSession<P, N>, out: &mut [u8], r: Result<usize>|
            #![trigger call_ensures(ClientSession::<P, N>::set_request, (s, d, access, value, out), r)]
            call_ensures(ClientSession::<P, N>::set_request, (s, d, access, value, out), r)
                && (*out)@.len() <= usize::MAX ==> asked(
            (*s)@,
            if access is Some {
                seq![0x08u32, 0x04u32]
            } else {
                seq![0x08u32]
            },
            numbered((*s)@),
            ApduV::SetRequest(SetRequestV::Normal { invoke_id: next_id((*s)@), descriptor: d@,
                access: opt_view(access), value: value@ }),
            (*out)@,
            final(out)@,
            final(s)@,
            r,
        ),
{
    assert forall|s: &mut ClientSession<P, N>, out: &mut [u8], r: Result<usize>|
        #![trigger call_ensures(ClientSession::<P, N>::set_request, (s, d, access, value, out), r)]
        call_ensures(ClientSession::<P, N>::set_request, (s, d, access, value, out), r)
            && (*out)@.len() <= usize::MAX implies asked(
        (*s)@,
        if access is Some {
            seq![0x08u32, 0x04u32]
        } else {
            seq![0x08u32]
        },
        numbered((*s)@),
        ApduV::SetRequest(SetRequestV::Normal { invoke_id: next_id((*s)@), descriptor: d@,
            access: opt_view(access), value: value@ }),
        (*out)@,
        final(out)@,
        final(s)@,
        r,
    ) by {
        law_invocations_are_numbered((*s)@);
        lemma_asked(
            (*s)@,
            seq![Conformance::SET()] + selection(access is Some),
            if access is Some {
                seq![0x08u32, 0x04u32]
            } else {
                seq![0x08u32]
            },
            numbered((*s)@),
            ApduV::SetRequest(SetRequestV::Normal { invoke_id: next_id((*s)@), descriptor: d@,
                access: opt_view(access), value: value@ }),
            N as nat,
            (*out)@,
            final(out)@,
            final(s)@,
            r,
        );
    }
}

/// An invocation names that method and hands over that parameter.
pub proof fn law_action_invokes_it<P: CryptoProvider,
    const N: usize>(d: MethodDescriptor, parameters: Option<Data<'_>>)
    ensures
        forall|s: &mut ClientSession<P, N>, out: &mut [u8], r: Result<usize>|
            #![trigger call_ensures(ClientSession::<P, N>::action_request, (s, d, parameters, out), r)]
            call_ensures(ClientSession::<P, N>::action_request, (s, d, parameters, out), r)
                && (*out)@.len() <= usize::MAX ==> asked(
            (*s)@,
            seq![0x01u32],
            numbered((*s)@),
            ApduV::ActionRequest(ActionRequestV::Normal { invoke_id: next_id((*s)@), descriptor: d@,
                parameters: opt_view(parameters) }),
            (*out)@,
            final(out)@,
            final(s)@,
            r,
        ),
{
    assert forall|s: &mut ClientSession<P, N>, out: &mut [u8], r: Result<usize>|
        #![trigger call_ensures(ClientSession::<P, N>::action_request, (s, d, parameters, out), r)]
        call_ensures(ClientSession::<P, N>::action_request, (s, d, parameters, out), r)
            && (*out)@.len() <= usize::MAX implies asked(
        (*s)@,
        seq![0x01u32],
        numbered((*s)@),
        ApduV::ActionRequest(ActionRequestV::Normal { invoke_id: next_id((*s)@), descriptor: d@,
            parameters: opt_view(parameters) }),
        (*out)@,
        final(out)@,
        final(s)@,
        r,
    ) by {
        law_invocations_are_numbered((*s)@);
        lemma_asked(
            (*s)@,
            seq![Conformance::ACTION()],
            seq![0x01u32],
            numbered((*s)@),
            ApduV::ActionRequest(ActionRequestV::Normal { invoke_id: next_id((*s)@), descriptor: d@,
                parameters: opt_view(parameters) }),
            N as nat,
            (*out)@,
            final(out)@,
            final(s)@,
            r,
        );
    }
}

/// A read by class asks for that attribute of the object of that name, as of that class.
pub proof fn law_get_by_class_asks_for_it<P: CryptoProvider, C: InterfaceClass,
    const N: usize>(name: Obis, attribute: i8)
    ensures
        forall|s: &mut ClientSession<P, N>, out: &mut [u8], r: Result<usize>|
            #![trigger call_ensures(ClientSession::<P, N>::get::<C>, (s, name, attribute, out), r)]
            call_ensures(ClientSession::<P, N>::get::<C>, (s, name, attribute, out), r)
                && (*out)@.len() <= usize::MAX ==> asked(
            (*s)@,
            seq![0x10u32],
            numbered((*s)@),
            ApduV::GetRequest(GetRequestV::Normal { invoke_id: next_id((*s)@),
                descriptor: (AttributeDescriptorV { class_id: C::CLASS_ID, instance_id: name@,
                attribute_id: attribute }), access: None }),
            (*out)@,
            final(out)@,
            final(s)@,
            r,
        ),
{
    assert forall|s: &mut ClientSession<P, N>, out: &mut [u8], r: Result<usize>|
        #![trigger call_ensures(ClientSession::<P, N>::get::<C>, (s, name, attribute, out), r)]
        call_ensures(ClientSession::<P, N>::get::<C>, (s, name, attribute, out), r)
            && (*out)@.len() <= usize::MAX implies asked(
        (*s)@,
        seq![0x10u32],
        numbered((*s)@),
        ApduV::GetRequest(GetRequestV::Normal { invoke_id: next_id((*s)@),
            descriptor: (AttributeDescriptorV { class_id: C::CLASS_ID, instance_id: name@,
            attribute_id: attribute }), access: None }),
        (*out)@,
        final(out)@,
        final(s)@,
        r,
    ) by {
        law_invocations_are_numbered((*s)@);
        lemma_asked(
            (*s)@,
            seq![Conformance::GET()],
            seq![0x10u32],
            numbered((*s)@),
            ApduV::GetRequest(GetRequestV::Normal { invoke_id: next_id((*s)@),
                descriptor: (AttributeDescriptorV { class_id: C::CLASS_ID, instance_id: name@,
                attribute_id: attribute }), access: None }),
            N as nat,
            (*out)@,
            final(out)@,
            final(s)@,
            r,
        );
    }
}

/// Whether going on comes to this: there has to be an association and an invocation to go on
/// with, and what is said is the request, under its number.
pub open spec fn continued<P: CryptoProvider>(
    s: SessionV<P>,
    apdu: ApduV,
    before: Seq<u8>,
    after: Seq<u8>,
    then: SessionV<P>,
    r: Result<usize>,
) -> bool {
    if !(s.state is Associated) || s.outstanding is None {
        then == s && after == before && r == Err::<usize, Error>(
            Error { kind: ErrorKind::UnexpectedMessage, offset: 0 },
        )
    } else {
        &&& r matches Ok(k) ==> went_out(s, apdu, before, after, then, k)
        &&& r is Err ==> after == before
    }
}

/// Asking for the next block of a read names the last one that came, under the number of the
/// read.
pub proof fn law_next_block_is_asked_for<P: CryptoProvider, const N: usize>(number: u32)
    ensures
        forall|s: &mut ClientSession<P, N>, out: &mut [u8], r: Result<usize>|
            #![trigger call_ensures(ClientSession::<P, N>::get_next_block_request, (s, number, out), r)]
            call_ensures(ClientSession::<P, N>::get_next_block_request, (s, number, out), r)
                && (*out)@.len() <= usize::MAX
                ==> continued(
                    (*s)@,
                    ApduV::GetRequest(GetRequestV::Next {
                        invoke_id: (*s)@.outstanding->0,
                        block_number: number,
                    }),
                    (*out)@,
                    final(out)@,
                    final(s)@,
                    r,
                ),
{
    assert forall|s: &mut ClientSession<P, N>, out: &mut [u8], r: Result<usize>|
        #![trigger call_ensures(ClientSession::<P, N>::get_next_block_request, (s, number, out), r)]
        call_ensures(ClientSession::<P, N>::get_next_block_request, (s, number, out), r)
            && (*out)@.len() <= usize::MAX
            implies continued(
                (*s)@,
                ApduV::GetRequest(GetRequestV::Next {
                    invoke_id: (*s)@.outstanding->0,
                    block_number: number,
                }),
                (*out)@,
                final(out)@,
                final(s)@,
                r,
            ) by {
        if (*s)@.state is Associated && (*s)@.outstanding is Some {
            law_sent_goes_out(
                (*s)@,
                ApduV::GetRequest(GetRequestV::Next {
                    invoke_id: (*s)@.outstanding->0,
                    block_number: number,
                }),
                N as nat,
                (*out)@,
                final(out)@,
                final(s)@,
                r,
            );
        }
    }
}

/// Asking for the next block of what a method returned names the last one that came, under
/// the number of the invocation.
pub proof fn law_next_action_block_is_asked_for<P: CryptoProvider, const N: usize>(number: u32)
    ensures
        forall|s: &mut ClientSession<P, N>, out: &mut [u8], r: Result<usize>|
            #![trigger call_ensures(ClientSession::<P, N>::action_next_block_request, (s, number, out), r)]
            call_ensures(ClientSession::<P, N>::action_next_block_request, (s, number, out), r)
                && (*out)@.len() <= usize::MAX
                ==> continued(
                    (*s)@,
                    ApduV::ActionRequest(ActionRequestV::NextPblock {
                        invoke_id: (*s)@.outstanding->0,
                        block_number: number,
                    }),
                    (*out)@,
                    final(out)@,
                    final(s)@,
                    r,
                ),
{
    assert forall|s: &mut ClientSession<P, N>, out: &mut [u8], r: Result<usize>|
        #![trigger call_ensures(ClientSession::<P, N>::action_next_block_request, (s, number, out), r)]
        call_ensures(ClientSession::<P, N>::action_next_block_request, (s, number, out), r)
            && (*out)@.len() <= usize::MAX
            implies continued(
                (*s)@,
                ApduV::ActionRequest(ActionRequestV::NextPblock {
                    invoke_id: (*s)@.outstanding->0,
                    block_number: number,
                }),
                (*out)@,
                final(out)@,
                final(s)@,
                r,
            ) by {
        if (*s)@.state is Associated && (*s)@.outstanding is Some {
            law_sent_goes_out(
                (*s)@,
                ApduV::ActionRequest(ActionRequestV::NextPblock {
                    invoke_id: (*s)@.outstanding->0,
                    block_number: number,
                }),
                N as nat,
                (*out)@,
                final(out)@,
                final(s)@,
                r,
            );
        }
    }
}

/// Whether asking for several things at once comes to this: what goes out is the request, in
/// an association in which all of the flags were agreed to, and of lists that pair up. Lists
/// that do not are refused as invalid, and nothing is said.
pub open spec fn asked_at_once<P: CryptoProvider>(
    s: SessionV<P>,
    flags: Seq<u32>,
    valid: bool,
    begun: SessionV<P>,
    apdu: ApduV,
    before: Seq<u8>,
    after: Seq<u8>,
    then: SessionV<P>,
    r: Result<usize>,
) -> bool {
    &&& r matches Ok(k) ==> {
        &&& s.state is Associated
        &&& valid
        &&& forall|i: int| 0 <= i < flags.len() ==> may(s, #[trigger] flags[i])
        &&& went_out(begun, apdu, before, after, then, k)
    }
    &&& r is Err ==> after == before
    &&& !(s.state is Associated) ==> r == Err::<usize, Error>(
        Error { kind: ErrorKind::UnexpectedMessage, offset: 0 },
    )
    &&& r is Err && !valid ==> then == s
}

/// A read of several attributes asks for all of them, each with its own part, in order.
pub proof fn law_get_list_asks_for_them<P: CryptoProvider,
    const N: usize>(items: &[AttributeDescriptorWithSelection<'_>])
    ensures
        forall|s: &mut ClientSession<P, N>, out: &mut [u8], r: Result<usize>|
            #![trigger call_ensures(ClientSession::<P, N>::get_request_with_list, (s, items, out), r)]
            call_ensures(ClientSession::<P, N>::get_request_with_list, (s, items, out), r)
                && (*out)@.len() <= usize::MAX
                ==> asked_at_once((*s)@, seq![0x10u32, 0x200u32], items@.len() > 0, numbered((*s)@),
                ApduV::GetRequest(GetRequestV::WithList { invoke_id: next_id((*s)@),
                list: views(items@) }), (*out)@, final(out)@, final(s)@, r),
{
    assert forall|s: &mut ClientSession<P, N>, out: &mut [u8], r: Result<usize>|
        #![trigger call_ensures(ClientSession::<P, N>::get_request_with_list, (s, items, out), r)]
        call_ensures(ClientSession::<P, N>::get_request_with_list, (s, items, out), r)
            && (*out)@.len() <= usize::MAX
            implies asked_at_once((*s)@, seq![0x10u32, 0x200u32], items@.len() > 0, numbered((*s)@),
            ApduV::GetRequest(GetRequestV::WithList { invoke_id: next_id((*s)@),
            list: views(items@) }), (*out)@, final(out)@, final(s)@, r) by {
        law_invocations_are_numbered((*s)@);
        if r is Ok {
            law_sent_goes_out(numbered((*s)@),
                ApduV::GetRequest(GetRequestV::WithList { invoke_id: next_id((*s)@),
                list: views(items@) }), N as nat, (*out)@, final(out)@, final(s)@, r);
            let needed = seq![Conformance::GET(), Conformance::MULTIPLE_REFERENCES()];
            assert forall|i: int| 0 <= i < needed.len()
                implies (*s)@.agreed(#[trigger] needed[i]) by {}
            assert((*s)@.agreed(needed[0]));
            assert((*s)@.agreed(needed[1]));
        }
    }
}

/// A write of several attributes hands over the value of each, in order.
pub proof fn law_set_list_hands_them_over<P: CryptoProvider,
    const N: usize>(items: &[AttributeDescriptorWithSelection<'_>], values: &[Data<'_>])
    ensures
        forall|s: &mut ClientSession<P, N>, out: &mut [u8], r: Result<usize>|
            #![trigger call_ensures(ClientSession::<P, N>::set_request_with_list, (s, items, values, out), r)]
            call_ensures(ClientSession::<P, N>::set_request_with_list, (s, items, values, out), r)
                && (*out)@.len() <= usize::MAX
                ==> asked_at_once((*s)@, seq![0x08u32, 0x200u32], items@.len() > 0 && items@.len()
                == values@.len(), numbered((*s)@),
                ApduV::SetRequest(SetRequestV::WithList { invoke_id: next_id((*s)@),
                descriptors: views(items@), values: views(values@) }), (*out)@, final(out)@,
                final(s)@, r),
{
    assert forall|s: &mut ClientSession<P, N>, out: &mut [u8], r: Result<usize>|
        #![trigger call_ensures(ClientSession::<P, N>::set_request_with_list, (s, items, values, out), r)]
        call_ensures(ClientSession::<P, N>::set_request_with_list, (s, items, values, out), r)
            && (*out)@.len() <= usize::MAX
            implies asked_at_once((*s)@, seq![0x08u32, 0x200u32], items@.len() > 0 && items@.len()
            == values@.len(), numbered((*s)@),
            ApduV::SetRequest(SetRequestV::WithList { invoke_id: next_id((*s)@),
            descriptors: views(items@), values: views(values@) }), (*out)@, final(out)@, final(s)@,
            r) by {
        law_invocations_are_numbered((*s)@);
        if r is Ok {
            law_sent_goes_out(numbered((*s)@),
                ApduV::SetRequest(SetRequestV::WithList { invoke_id: next_id((*s)@),
                descriptors: views(items@), values: views(values@) }), N as nat, (*out)@,
                final(out)@, final(s)@, r);
            let needed = seq![Conformance::SET(), Conformance::MULTIPLE_REFERENCES()];
            assert forall|i: int| 0 <= i < needed.len()
                implies (*s)@.agreed(#[trigger] needed[i]) by {}
            assert((*s)@.agreed(needed[0]));
            assert((*s)@.agreed(needed[1]));
        }
    }
}

/// An invocation of several methods hands over the parameter of each, in order, and null for
/// one that takes none.
pub proof fn law_action_list_invokes_them<P: CryptoProvider,
    const N: usize>(descriptors: &[MethodDescriptor], parameters: &[Option<Data<'_>>])
    ensures
        forall|s: &mut ClientSession<P, N>, out: &mut [u8], r: Result<usize>|
            #![trigger call_ensures(ClientSession::<P, N>::action_request_with_list, (s, descriptors, parameters, out), r)]
            call_ensures(ClientSession::<P, N>::action_request_with_list,
                (s, descriptors, parameters, out), r) && (*out)@.len() <= usize::MAX
                ==> asked_at_once((*s)@, seq![0x01u32, 0x200u32], 0 < descriptors@.len() <= 64
                && descriptors@.len() == parameters@.len(), numbered((*s)@),
                ApduV::ActionRequest(ActionRequestV::WithList { invoke_id: next_id((*s)@),
                descriptors: views(descriptors@), parameters: parameter_data(parameters@) }),
                (*out)@, final(out)@, final(s)@, r),
{
    assert forall|s: &mut ClientSession<P, N>, out: &mut [u8], r: Result<usize>|
        #![trigger call_ensures(ClientSession::<P, N>::action_request_with_list, (s, descriptors, parameters, out), r)]
        call_ensures(ClientSession::<P, N>::action_request_with_list,
            (s, descriptors, parameters, out), r) && (*out)@.len() <= usize::MAX
            implies asked_at_once((*s)@, seq![0x01u32, 0x200u32], 0 < descriptors@.len() <= 64
            && descriptors@.len() == parameters@.len(), numbered((*s)@),
            ApduV::ActionRequest(ActionRequestV::WithList { invoke_id: next_id((*s)@),
            descriptors: views(descriptors@), parameters: parameter_data(parameters@) }), (*out)@,
            final(out)@, final(s)@, r) by {
        law_invocations_are_numbered((*s)@);
        if r is Ok {
            law_sent_goes_out(numbered((*s)@),
                ApduV::ActionRequest(ActionRequestV::WithList { invoke_id: next_id((*s)@),
                descriptors: views(descriptors@), parameters: parameter_data(parameters@) }),
                N as nat, (*out)@, final(out)@, final(s)@, r);
            let needed = seq![Conformance::ACTION(), Conformance::MULTIPLE_REFERENCES()];
            assert forall|i: int| 0 <= i < needed.len()
                implies (*s)@.agreed(#[trigger] needed[i]) by {}
            assert((*s)@.agreed(needed[0]));
            assert((*s)@.agreed(needed[1]));
        }
    }
}

/// An access request names every operation and hands over a value for each, in order.
pub proof fn law_access_asks_for_all<P: CryptoProvider, const N: usize>(items: &[AccessItem<'_>])
    ensures
        forall|s: &mut ClientSession<P, N>, out: &mut [u8], r: Result<usize>|
            #![trigger call_ensures(ClientSession::<P, N>::access_request, (s, items, out), r)]
            call_ensures(ClientSession::<P, N>::access_request, (s, items, out), r)
                && (*out)@.len() <= usize::MAX
                ==> asked_at_once((*s)@, seq![0x40u32], 0 < items@.len() <= 64, (*s)@.fresh_long(),
                ApduV::AccessRequest(AccessRequestV { long_invoke_id: LongInvokeId((0x4000_0000
                + (*s)@.fresh_long().invoke_id) as u32), date_time: OptionalDateTime(None),
                specification: specifications(views(items@)), data: item_data(views(items@)) }),
                (*out)@, final(out)@, final(s)@, r),
{
    assert forall|s: &mut ClientSession<P, N>, out: &mut [u8], r: Result<usize>|
        #![trigger call_ensures(ClientSession::<P, N>::access_request, (s, items, out), r)]
        call_ensures(ClientSession::<P, N>::access_request, (s, items, out), r)
            && (*out)@.len() <= usize::MAX
            implies asked_at_once((*s)@, seq![0x40u32], 0 < items@.len() <= 64, (*s)@.fresh_long(),
            ApduV::AccessRequest(AccessRequestV { long_invoke_id: LongInvokeId((0x4000_0000
            + (*s)@.fresh_long().invoke_id) as u32), date_time: OptionalDateTime(None),
            specification: specifications(views(items@)), data: item_data(views(items@)) }),
            (*out)@, final(out)@, final(s)@, r) by {
        law_invocations_are_numbered((*s)@);
        if r is Ok {
            law_sent_goes_out((*s)@.fresh_long(),
                ApduV::AccessRequest(AccessRequestV { long_invoke_id: LongInvokeId((0x4000_0000
                + (*s)@.fresh_long().invoke_id) as u32), date_time: OptionalDateTime(None),
                specification: specifications(views(items@)), data: item_data(views(items@)) }),
                N as nat, (*out)@, final(out)@, final(s)@, r);
            let needed = seq![Conformance::ACCESS()];
            assert forall|i: int| 0 <= i < needed.len()
                implies (*s)@.agreed(#[trigger] needed[i]) by {}
            assert((*s)@.agreed(needed[0]));
        }
    }
}

/// A read by short name names every entry, in order; there has to be a short-name association.
pub proof fn law_read_names_them<P: CryptoProvider, const N: usize>(items: &[VariableAccess<'_>])
    ensures
        forall|s: &mut ClientSession<P, N>, out: &mut [u8], r: Result<usize>|
            #![trigger call_ensures(ClientSession::<P, N>::read_request, (s, items, out), r)]
            call_ensures(ClientSession::<P, N>::read_request, (s, items, out), r)
                && (*out)@.len() <= usize::MAX
                ==> asked_at_once((*s)@, seq![0x10_0000u32], items@.len() > 0, (*s)@.quiet(),
                ApduV::ReadRequest(ReadRequestV { specification: views(items@) }), (*out)@,
                final(out)@, final(s)@, r) && (r is Ok ==> (*s)@.config.referencing is ShortName),
{
    assert forall|s: &mut ClientSession<P, N>, out: &mut [u8], r: Result<usize>|
        #![trigger call_ensures(ClientSession::<P, N>::read_request, (s, items, out), r)]
        call_ensures(ClientSession::<P, N>::read_request, (s, items, out), r)
            && (*out)@.len() <= usize::MAX
            implies asked_at_once((*s)@, seq![0x10_0000u32], items@.len() > 0, (*s)@.quiet(),
            ApduV::ReadRequest(ReadRequestV { specification: views(items@) }), (*out)@, final(out)@,
            final(s)@, r) && (r is Ok ==> (*s)@.config.referencing is ShortName) by {
        law_invocations_are_numbered((*s)@);
        if r is Ok {
            law_sent_goes_out((*s)@.quiet(),
                ApduV::ReadRequest(ReadRequestV { specification: views(items@) }), N as nat,
                (*out)@, final(out)@, final(s)@, r);
            let needed = seq![Conformance::READ()];
            assert forall|i: int| 0 <= i < needed.len()
                implies (*s)@.agreed(#[trigger] needed[i]) by {}
            assert((*s)@.agreed(needed[0]));
        }
    }
}

/// A write by short name hands over the value of every entry, in order.
pub proof fn law_write_hands_them_over<P: CryptoProvider,
    const N: usize>(items: &[VariableAccess<'_>], values: &[Data<'_>])
    ensures
        forall|s: &mut ClientSession<P, N>, out: &mut [u8], r: Result<usize>|
            #![trigger call_ensures(ClientSession::<P, N>::write_request, (s, items, values, out), r)]
            call_ensures(ClientSession::<P, N>::write_request, (s, items, values, out), r)
                && (*out)@.len() <= usize::MAX
                ==> asked_at_once((*s)@, seq![0x08_0000u32], items@.len() > 0 && items@.len()
                == values@.len(), (*s)@.quiet(),
                ApduV::WriteRequest(WriteRequestV { specification: views(items@),
                values: views(values@) }), (*out)@, final(out)@, final(s)@, r)
                && (r is Ok ==> (*s)@.config.referencing is ShortName),
{
    assert forall|s: &mut ClientSession<P, N>, out: &mut [u8], r: Result<usize>|
        #![trigger call_ensures(ClientSession::<P, N>::write_request, (s, items, values, out), r)]
        call_ensures(ClientSession::<P, N>::write_request, (s, items, values, out), r)
            && (*out)@.len() <= usize::MAX
            implies asked_at_once((*s)@, seq![0x08_0000u32], items@.len() > 0 && items@.len()
            == values@.len(), (*s)@.quiet(),
            ApduV::WriteRequest(WriteRequestV { specification: views(items@),
            values: views(values@) }), (*out)@, final(out)@, final(s)@, r)
            && (r is Ok ==> (*s)@.config.referencing is ShortName) by {
        law_invocations_are_numbered((*s)@);
        if r is Ok {
            law_sent_goes_out((*s)@.quiet(),
                ApduV::WriteRequest(WriteRequestV { specification: views(items@),
                values: views(values@) }), N as nat, (*out)@, final(out)@, final(s)@, r);
            let needed = seq![Conformance::WRITE()];
            assert forall|i: int| 0 <= i < needed.len()
                implies (*s)@.agreed(#[trigger] needed[i]) by {}
            assert((*s)@.agreed(needed[0]));
        }
    }
}

/// A write by short name that nobody confirms hands over the same.
pub proof fn law_unconfirmed_write_hands_them_over<P: CryptoProvider,
    const N: usize>(items: &[VariableAccess<'_>], values: &[Data<'_>])
    ensures
        forall|s: &mut ClientSession<P, N>, out: &mut [u8], r: Result<usize>|
            #![trigger call_ensures(ClientSession::<P, N>::unconfirmed_write_request, (s, items, values, out), r)]
            call_ensures(ClientSession::<P, N>::unconfirmed_write_request, (s, items, values, out),
                r) && (*out)@.len() <= usize::MAX
                ==> asked_at_once((*s)@, seq![0x04_0000u32], items@.len() > 0 && items@.len()
                == values@.len(), (*s)@.quiet(),
                ApduV::UnconfirmedWriteRequest(UnconfirmedWriteRequestV {
                    specification: views(items@),
                    values: views(values@),
                }),
                (*out)@,
                final(out)@,
                final(s)@,
                r,
            ) && (r is Ok ==> (*s)@.config.referencing is ShortName),
{
    assert forall|s: &mut ClientSession<P, N>, out: &mut [u8], r: Result<usize>|
        #![trigger call_ensures(ClientSession::<P, N>::unconfirmed_write_request, (s, items, values, out), r)]
        call_ensures(ClientSession::<P, N>::unconfirmed_write_request, (s, items, values, out), r)
            && (*out)@.len() <= usize::MAX
            implies asked_at_once((*s)@, seq![0x04_0000u32], items@.len() > 0 && items@.len()
            == values@.len(), (*s)@.quiet(),
            ApduV::UnconfirmedWriteRequest(UnconfirmedWriteRequestV { specification: views(items@),
            values: views(values@) }), (*out)@, final(out)@, final(s)@, r)
            && (r is Ok ==> (*s)@.config.referencing is ShortName) by {
        law_invocations_are_numbered((*s)@);
        if r is Ok {
            law_sent_goes_out((*s)@.quiet(),
                ApduV::UnconfirmedWriteRequest(UnconfirmedWriteRequestV {
                    specification: views(items@),
                    values: views(values@),
                }),
                N as nat,
                (*out)@,
                final(out)@,
                final(s)@,
                r,
            );
            let needed = seq![Conformance::UNCONFIRMED_WRITE()];
            assert forall|i: int| 0 <= i < needed.len()
                implies (*s)@.agreed(#[trigger] needed[i]) by {}
            assert((*s)@.agreed(needed[0]));
        }
    }
}

/// What stands for an operation of an access request: its own name, with a part only where
/// one is asked for, and its value, with null where there is none.
pub proof fn law_operations_are_named(
    d: AttributeDescriptorV,
    a: SelectiveAccessV,
    m: MethodDescriptorV,
    v: DataV,
    items: Seq<AccessItemV>,
    i: int,
)
    ensures
        ({
            let x = AccessItemV::Get { descriptor: d, access: None };
            x.specification() == AccessRequestSpecificationV::Get(d) && x.data() is Null
        }),
        ({
            let x = AccessItemV::Get { descriptor: d, access: Some(a) };
            x.specification() == AccessRequestSpecificationV::GetWithSelection(
                AttributeDescriptorWithSelectionV { descriptor: d, access: Some(a) },
            ) && x.data() is Null
        }),
        ({
            let x = AccessItemV::Write { descriptor: d, access: None, value: v };
            x.specification() == AccessRequestSpecificationV::Write(d) && x.data() == v
        }),
        ({
            let x = AccessItemV::Write { descriptor: d, access: Some(a), value: v };
            x.specification() == AccessRequestSpecificationV::WriteWithSelection(
                AttributeDescriptorWithSelectionV { descriptor: d, access: Some(a) },
            ) && x.data() == v
        }),
        ({
            let x = AccessItemV::Action { descriptor: m, parameters: Some(v) };
            x.specification() == AccessRequestSpecificationV::Action(m) && x.data() == v
        }),
        ({
            let x = AccessItemV::Action { descriptor: m, parameters: None };
            x.specification() == AccessRequestSpecificationV::Action(m) && x.data() is Null
        }),
        specifications(items).len() == items.len(),
        item_data(items).len() == items.len(),
        0 <= i < items.len() ==> specifications(items)[i] == items[i].specification()
            && item_data(items)[i] == items[i].data(),
{
}

/// The parameters of several methods are those that were handed over, in order, with null for
/// none.
pub proof fn law_parameters_are_handed_over(parameters: Seq<Option<Data<'_>>>, i: int)
    requires
        0 <= i < parameters.len(),
    ensures
        parameter_data(parameters).len() == parameters.len(),
        parameters[i] matches Some(d) ==> parameter_data(parameters)[i] == d@,
        parameters[i] is None ==> parameter_data(parameters)[i] is Null,
{
}

/// What a session says when it asks to associate: the context that it is set up for, who it
/// is, by which mechanism it proves itself, and by what: its password, or a challenge where it
/// comes to that.
pub proof fn law_request_says<P: CryptoProvider>(s: SessionV<P>, info: Seq<u8>, challenge: Seq<u8>)
    ensures
        ({
            let q = s.request(info, challenge);
            let m = s.config.mechanism;
            let protected = s.config.security.authenticated || s.config.security.encrypted;
            &&& q.user_information == Some(info)
            &&& q.application_context == Some(
                match (s.config.referencing, protected) {
                    (Referencing::LogicalName, false) => ApplicationContext::LogicalName,
                    (Referencing::LogicalName, true) => ApplicationContext::LogicalNameCiphered,
                    (Referencing::ShortName, false) => ApplicationContext::ShortName,
                    (Referencing::ShortName, true) => ApplicationContext::ShortNameCiphered,
                },
            )
            &&& s.config.system_title matches Some(t) ==> q.calling_ap_title == Some(t@)
            &&& s.config.system_title is None ==> q.calling_ap_title is None
            &&& m is Lowest ==> q.mechanism_name is None && !q.sender_acse_requirements
            &&& !(m is Lowest) ==> q.mechanism_name == Some(m) && q.sender_acse_requirements
            &&& m is Low ==> (s.config.password matches Some(p) ==> q.calling_authentication_value
                == Some(p@))
            &&& !(m is Lowest || m is Low) ==> q.calling_authentication_value == Some(challenge)
        }),
{
}

/// What a session proposes: what it is set up to do, the most that it receives, version six,
/// and its key where it is set up to have one of its own.
pub proof fn law_proposal_says<P: CryptoProvider>(s: SessionV<P>)
    ensures
        s.initiate().proposed_conformance == s.config.conformance,
        s.initiate().client_max_receive_pdu_size == s.config.max_pdu_size,
        s.initiate().proposed_dlms_version == 6,
        s.initiate().response_allowed,
        s.initiate().dedicated_key == if s.config.security.key_set is Dedicated && (
        s.config.security.authenticated || s.config.security.encrypted) {
            s.crypto.dedicated_bytes()
        } else {
            None
        },
        s.initiate_plain() == seq![1u8] + s.initiate().enc(),
        s.config.security.is_none() ==> s.user_information() == (
            Ok::<Seq<u8>, Error>(s.initiate_plain()),
            s,
        ),
{
}

/// Whom a session associates with: one that accepts, in the context that was asked for, by
/// the mechanism that was asked for. It is then associated at once, or has the server's
/// challenge to answer where the security is high; and everything else is reported as a
/// rejection and closes the session.
pub proof fn law_association_is_as_asked<P: CryptoProvider>(s: SessionV<P>, aare: AareV)
    requires
        s.state is Associating,
    ensures
        ({
            let (r, then) = s.answered(aare);
            let m = s.config.mechanism;
            let high = !(m is Lowest || m is Low);
            let fits = {
                &&& aare.application_context matches Some(c) ==> c == s.context()
                &&& aare.mechanism_name matches Some(n) ==> n == m
                &&& aare.mechanism_name is None ==> m is Lowest
            };
            &&& then.state is Associated ==> {
                &&& r == Ok::<AssociationStep, Error>(AssociationStep::Established)
                &&& aare.result is Accepted && fits && !high
            }
            &&& then.state is AuthenticatingHls ==> {
                &&& r == Ok::<AssociationStep, Error>(AssociationStep::HlsReplyRequired)
                &&& aare.result is Accepted && fits && high
                &&& aare.responding_authentication_value == Some(then.server_challenge)
                &&& then.server_challenge.len() <= 64
            }
            &&& r matches Ok(AssociationStep::Rejected { .. }) ==> then.state is Closed
            &&& (aare.responding_ap_title matches Some(t) ==> t.len() == 8) && !(
            aare.result is Accepted) ==> r == Ok::<AssociationStep, Error>(
                AssociationStep::Rejected { result: aare.result, diagnostic: aare.diagnostic },
            )
            &&& r is Ok && aare.responding_ap_title is Some ==> then.server_title
                == aare.responding_ap_title
            &&& then.counter == s.counter && then.config == s.config
            &&& r == Ok::<AssociationStep, Error>(AssociationStep::Established) || r == Ok::<
                AssociationStep,
                Error,
            >(AssociationStep::HlsReplyRequired) ==> then.policy.dedicated() == (
            s.config.security.dedicated() || s.policy.dedicated())
        }),
{
}

/// What is in force for a session is what the server said: where the answer is in the clear,
/// what stands in its user information behind the tag, if it is of version six.
pub proof fn law_agreed_is_what_the_server_said<P: CryptoProvider>(
    s: SessionV<P>,
    aare: AareV,
    info: Seq<u8>,
    said: InitiateResponseV,
    rest: Cursor,
)
    requires
        s.config.security.is_none(),
        0 < info.len() <= 256,
        info[0] == 8,
        InitiateResponseV::p(Cursor::start(info).adv(1)) == Ok::<
            (InitiateResponseV, Cursor),
            Error,
        >((said, rest)),
    ensures
        said.negotiated_dlms_version == 6 ==> s.negotiates(aare, info).0 == Ok::<
            Option<AssociationStep>,
            Error,
        >(None) && s.negotiates(aare, info).1.negotiated == Some(said),
        said.negotiated_dlms_version != 6 ==> s.negotiates(aare, info).0 == Err::<
            Option<AssociationStep>,
            Error,
        >(Error { kind: ErrorKind::Unsupported, offset: 0 }),
{
    reveal(crate::security::wrap::unwrapped_by);
    reveal(crate::xdlms::tag::tag_of);
    reveal(crate::xdlms::tag::plain_of);
}

/// The answer to the server's challenge is the parameter of the first method of the current
/// association, under the client's own title and a counter of its own.
pub proof fn law_challenge_is_answered<P: CryptoProvider>(
    s: SessionV<P>,
    n: nat,
    before: Seq<u8>,
    after: Seq<u8>,
    then: SessionV<P>,
    k: usize,
)
    requires
        s.replies(n, before, after, then, Ok::<usize, Error>(k)),
        before.len() <= usize::MAX,
    ensures
        s.state is AuthenticatingHls,
        s.config.mechanism is HighGmac,
        s.config.system_title is Some,
        s.crypto.auth_bytes() is Some,
        hls_reply_of(
            &s.crypto,
            s.policy,
            s.config.system_title->0@,
            (s.counter + 1) as u32,
            s.crypto.auth_bytes()->0,
            s.server_challenge,
        ) matches Ok(reply) && went_out(
            numbered(with_counter(s, (s.counter + 1) as u32)),
            ApduV::ActionRequest(
                ActionRequestV::Normal {
                    invoke_id: next_id(s),
                    descriptor: (MethodDescriptorV {
                        class_id: 15,
                        instance_id: seq![0u8, 0u8, 40u8, 0u8, 0u8, 255u8],
                        method_id: 1,
                    }),
                    parameters: Some(DataV::OctetString(reply)),
                },
            ),
            before,
            after,
            then,
            k,
        ),
{
    let spent = with_counter(s, (s.counter + 1) as u32);
    law_invocations_are_numbered(spent);
    let reply = hls_reply_of(
        &s.crypto,
        s.policy,
        s.config.system_title->0@,
        (s.counter + 1) as u32,
        s.crypto.auth_bytes()->0,
        s.server_challenge,
    )->Ok_0;
    law_sent_goes_out(
        spent.fresh(),
        ApduV::ActionRequest(
            ActionRequestV::Normal {
                invoke_id: spent.fresh().outstanding->0,
                descriptor: super::session::hls_method(),
                parameters: Some(DataV::OctetString(reply)),
            },
        ),
        n,
        before,
        after,
        then,
        Ok::<usize, Error>(k),
    );
    assert(super::session::hls_method().instance_id =~= seq![0u8, 0u8, 40u8, 0u8, 0u8, 255u8]);
}

/// A session that has spent another counter.
pub open spec fn with_counter<P>(s: SessionV<P>, counter: u32) -> SessionV<P> {
    SessionV { counter, ..s }
}

/// The server is believed only where its answer is right: a success, with the tag over the
/// client's own challenge under the server's title. A failure closes the session, and a wrong
/// answer does not open it.
pub proof fn law_server_must_prove_itself<P: CryptoProvider>(
    s: SessionV<P>,
    invoke_id: InvokeId,
    result: ActionResult,
    given: Seq<u8>,
)
    requires
        s.server_title is Some,
        s.crypto.auth_bytes() is Some,
        !(s.state is Associated),
    ensures
        ({
            let (r, then) = s.proves(
                ApduV::ActionResponse(
                    ActionResponseV::Normal {
                        invoke_id,
                        response: ActionResponseWithOptionalDataV {
                            result,
                            return_parameters: Some(
                                GetDataResultV::Data(DataV::OctetString(given)),
                            ),
                        },
                    },
                ),
            );
            let right = hls_check_of(
                &s.crypto,
                s.policy,
                s.server_title->0,
                s.crypto.auth_bytes()->0,
                s.client_challenge,
                given,
            );
            &&& then.state is Associated <==> result is Success && right is Ok
            &&& r == Ok::<AssociationStep, Error>(AssociationStep::Established)
                <==> result is Success
                && right is Ok
            &&& !(result is Success) ==> then.state is Closed && (r matches Ok(
                AssociationStep::Rejected { .. },
            ))
            &&& result is Success && right is Err ==> then == s && r is Err
        }),
{
}

/// A transfer of a long value names what it is for in its first block and not after, and
/// every block carries the next of its bytes.
pub proof fn law_transfer_names_its_target(t: SenderV, invoke_id: InvokeId)
    ensures
        t.target matches TargetV::Attribute { descriptor, access } ==> t.request(invoke_id)
            == ApduV::SetRequest(
            if t.block == 0 {
                SetRequestV::WithFirstDataBlock { invoke_id, descriptor, access, block: t.next() }
            } else {
                SetRequestV::WithDataBlock { invoke_id, block: t.next() }
            },
        ),
        t.target matches TargetV::AttributeList(descriptors) ==> t.request(invoke_id)
            == ApduV::SetRequest(
            if t.block == 0 {
                SetRequestV::WithListAndFirstDataBlock { invoke_id, descriptors, block: t.next() }
            } else {
                SetRequestV::WithDataBlock { invoke_id, block: t.next() }
            },
        ),
        t.target matches TargetV::Method(descriptor) ==> t.request(invoke_id)
            == ApduV::ActionRequest(
            if t.block == 0 {
                ActionRequestV::WithFirstPblock { invoke_id, descriptor, block: t.next() }
            } else {
                ActionRequestV::WithPblock { invoke_id, block: t.next() }
            },
        ),
        t.wf() && !t.done() ==> {
            &&& t.next().raw_data == t.bytes.skip(t.sent as int).take(
                t.next().raw_data.len() as int,
            )
            &&& t.next().raw_data.len() <= t.fragment
            &&& t.next().last_block <==> t.sent + t.next().raw_data.len() == t.bytes.len()
            &&& !t.next().last_block ==> t.next().raw_data.len() == t.fragment
        },
{
    if t.wf() && !t.done() {
        assert(t.next().raw_data =~= t.bytes.skip(t.sent as int).take(
            t.next().raw_data.len() as int,
        ));
    }
}

/// A transfer is begun for what was asked: that value, for that attribute or method, from its
/// start, in an association that agreed to it; and its blocks are no longer than the server
/// receives, less what stands round them.
pub proof fn law_transfer_is_begun<P: CryptoProvider, const N: usize>(
    d: AttributeDescriptor,
    access: Option<SelectiveAccess<'_>>,
    m: MethodDescriptor,
    value: &[u8],
)
    ensures
        forall|s: &mut ClientSession<P, N>, t: BlockSender<'_>|
            #![trigger call_ensures(ClientSession::<P, N>::set_transfer, (s, d, access, value), Ok::<BlockSender<'_>, Error>(t))]
            call_ensures(
                ClientSession::<P, N>::set_transfer,
                (s, d, access, value),
                Ok::<BlockSender<'_>, Error>(t),
            ) ==> {
                &&& (*s)@.state is Associated && may((*s)@, 0x08) && may((*s)@, 0x800)
                &&& t@.target == (TargetV::Attribute { descriptor: d@, access: opt_view(access) })
                &&& access is None ==> begun(t@, value@, (*s)@, 0, N as nat)
                &&& access matches Some(a) ==> (a.encodable() ==> begun(
                    t@,
                    value@,
                    (*s)@,
                    a.enc().len(),
                    N as nat,
                ))
                &&& final(s)@ == (*s)@
            },
        forall|s: &mut ClientSession<P, N>, t: BlockSender<'_>|
            #![trigger call_ensures(ClientSession::<P, N>::action_transfer, (s, m, value), Ok::<BlockSender<'_>, Error>(t))]
            call_ensures(
                ClientSession::<P, N>::action_transfer,
                (s, m, value),
                Ok::<BlockSender<'_>, Error>(t),
            ) ==> {
                &&& (*s)@.state is Associated && may((*s)@, 0x01) && may((*s)@, 0x400)
                &&& t@.target == TargetV::Method(m@)
                &&& begun(t@, value@, (*s)@, 0, N as nat)
                &&& final(s)@ == (*s)@
            },
{
    assert forall|s: &mut ClientSession<P, N>, t: BlockSender<'_>|
        #![trigger call_ensures(ClientSession::<P, N>::set_transfer, (s, d, access, value), Ok::<BlockSender<'_>, Error>(t))]
        call_ensures(
            ClientSession::<P, N>::set_transfer,
            (s, d, access, value),
            Ok::<BlockSender<'_>, Error>(t),
        ) implies {
        &&& (*s)@.state is Associated && may((*s)@, 0x08) && may((*s)@, 0x800)
        &&& t@.target == (TargetV::Attribute { descriptor: d@, access: opt_view(access) })
        &&& access is None ==> begun(t@, value@, (*s)@, 0, N as nat)
        &&& access matches Some(a) ==> (a.encodable() ==> begun(
            t@,
            value@,
            (*s)@,
            a.enc().len(),
            N as nat,
        ))
        &&& final(s)@ == (*s)@
    } by {
        let needed = seq![Conformance::SET(), Conformance::BLOCK_TRANSFER_WITH_SET_OR_WRITE()];
        if (*s)@.not_ready(needed) is None {
            assert((*s)@.agreed(needed[0]) && (*s)@.agreed(needed[1]));
        }
    }
    assert forall|s: &mut ClientSession<P, N>, t: BlockSender<'_>|
        #![trigger call_ensures(ClientSession::<P, N>::action_transfer, (s, m, value), Ok::<BlockSender<'_>, Error>(t))]
        call_ensures(
            ClientSession::<P, N>::action_transfer,
            (s, m, value),
            Ok::<BlockSender<'_>, Error>(t),
        ) implies {
        &&& (*s)@.state is Associated && may((*s)@, 0x01) && may((*s)@, 0x400)
        &&& t@.target == TargetV::Method(m@)
        &&& begun(t@, value@, (*s)@, 0, N as nat)
        &&& final(s)@ == (*s)@
    } by {
        let needed = seq![Conformance::ACTION(), Conformance::BLOCK_TRANSFER_WITH_ACTION()];
        if (*s)@.not_ready(needed) is None {
            assert((*s)@.agreed(needed[0]) && (*s)@.agreed(needed[1]));
        }
    }
}

/// Whether a transfer is at its start, with all of a value before it, in fragments that are as
/// long as leaves room for what stands round them in what the other end receives, and for so
/// much more.
pub open spec fn begun<P>(t: SenderV, value: Seq<u8>, s: SessionV<P>, more: nat, n: nat) -> bool {
    let room = (match s.negotiated {
        Some(a) => a.server_max_receive_pdu_size as int,
        None => s.config.max_pdu_size as int,
    }) - 23 - (if s.config.security.authenticated || s.config.security.encrypted {
        23int
    } else {
        0
    }) - more;
    &&& t.bytes == value
    &&& t.sent == 0
    &&& t.block == 0
    &&& t.fragment > 0
    &&& t.fragment == if room < n {
        room
    } else {
        n as int
    }
}

/// A block is gathered only in its turn and only where it fits, and is then behind those that
/// came before it; any other is refused, and what was gathered stays.
pub proof fn law_blocks_are_gathered_in_turn(c: CollectorV, number: u32, data: Seq<u8>)
    requires
        c.last < u32::MAX,
        c.bytes.len() <= c.capacity <= usize::MAX,
    ensures
        c.pushed(number, data) is Ok <==> number == c.last + 1 && c.bytes.len() + data.len()
            <= c.capacity,
        c.pushed(number, data) matches Ok(d) ==> {
            &&& d.bytes == c.bytes + data
            &&& d.last == number
            &&& d.capacity == c.capacity
        },
        number != c.last + 1 ==> c.pushed(number, data) == Err::<CollectorV, Error>(
            Error { kind: ErrorKind::UnexpectedMessage, offset: c.bytes.len() as usize },
        ),
{
}

/// A new session is set up as it was told to be and is not associated; and one with no
/// settings of its own is the public client, in the clear, by logical names.
pub proof fn law_new_session<P: CryptoProvider, const N: usize>(config: ClientConfig, provider: P)
    ensures
        forall|s: ClientSession<P, N>|
            #![trigger call_ensures(ClientSession::<P, N>::new, (config, provider), s)]
            call_ensures(ClientSession::<P, N>::new, (config, provider), s) ==> {
                &&& s@.config == config && s@.crypto == provider
                &&& s@.state is Idle && s@.negotiated is None && s@.outstanding is None
                &&& s@.counter == config.invocation_counter
                &&& s@.window.highest is None && s@.window.seen.is_empty()
                &&& s@.server_title is None && !s@.policy.dedicated()
            },
        forall|c: ClientConfig|
            #![trigger call_ensures(<ClientConfig as Default>::default, (), c)]
            call_ensures(<ClientConfig as Default>::default, (), c) ==> {
                &&& c.client_sap == 0x10
                &&& c.system_title is None && c.password is None
                &&& c.mechanism is Lowest && c.referencing is LogicalName
                &&& !c.security.authenticated && !c.security.encrypted
                &&& c.max_pdu_size == 1024 && c.challenge_len == 16
                &&& c.conformance.0 == 0x40_1E5D
                &&& c.invocation_counter == 0 && c.replay_window == 0
            },
{
}

/// A release says that it is a normal one, in five bytes, and the session waits for the
/// answer.
pub proof fn law_release_says<P: CryptoProvider, const N: usize>()
    ensures
        forall|s: &mut ClientSession<P, N>, out: &mut [u8], r: Result<usize>|
            #![trigger call_ensures(ClientSession::<P, N>::release_request, (s, out), r)]
            call_ensures(ClientSession::<P, N>::release_request, (s, out), r) ==> {
                &&& r is Ok <==> (*out)@.len() >= 5
                &&& r matches Ok(n) ==> n == 5 && final(out)@.take(5) == seq![
                    0x62u8,
                    3u8,
                    0x80u8,
                    1u8,
                    0u8,
                ] && final(out)@.skip(5) == (*out)@.skip(5) && final(s)@ == in_state(
                    (*s)@,
                    SessionState::Releasing,
                )
                &&& r is Err ==> final(out)@ == (*out)@ && final(s)@ == (*s)@
            },
{
    let q = Rlrq { reason: Some(ReleaseReason::Normal), user_information: None };
    law_release_bytes(q, Rlre { reason: None, user_information: None });
    assert(q@.fields() =~= seq![0x80u8, 1u8, 0u8]);
    assert(q.enc() =~= seq![0x62u8, 3u8, 0x80u8, 1u8, 0u8]);
    assert(q.encodable());
    assert forall|s: &mut ClientSession<P, N>, out: &mut [u8], r: Result<usize>|
        #![trigger call_ensures(ClientSession::<P, N>::release_request, (s, out), r)]
        call_ensures(ClientSession::<P, N>::release_request, (s, out), r) && r is Ok
            implies final(out)@.take(5)
        == seq![0x62u8, 3u8, 0x80u8, 1u8, 0u8] && final(out)@.skip(5) == (*out)@.skip(5) by {
        assert(final(out)@.take(5) =~= seq![0x62u8, 3u8, 0x80u8, 1u8, 0u8]);
        assert(final(out)@.skip(5) =~= (*out)@.skip(5));
    }
}

/// A session that is told where its counter stands goes on from there.
pub proof fn law_counter_is_set<P: CryptoProvider, const N: usize>(value: u32)
    ensures
        forall|s: &mut ClientSession<P, N>|
            #![trigger call_ensures(ClientSession::<P, N>::set_invocation_counter, (s, value), ())]
            call_ensures(ClientSession::<P, N>::set_invocation_counter, (s, value), ())
                ==> final(s)@ == with_counter((*s)@, value),
{
}

/// A session does not even ask where it could not go on: where it is to be ciphered, or to
/// prove itself by a challenge, and has no title; or where it is to have a key of its own and
/// has none. It then says nothing and stays as it was.
pub proof fn law_cannot_ask<P: CryptoProvider, const N: usize>()
    ensures
        forall|s: &mut ClientSession<P, N>, out: &mut [u8], r: Result<usize>|
            #![trigger call_ensures(ClientSession::<P, N>::associate_request, (s, out), r)]
            call_ensures(ClientSession::<P, N>::associate_request, (s, out), r) ==> {
                let c = (*s)@.config;
                let ciphered = c.security.authenticated || c.security.encrypted;
                let high = !(c.mechanism is Lowest || c.mechanism is Low);
                &&& (ciphered || high) && c.system_title is None ==> {
                    &&& r == Err::<usize, Error>(
                        Error { kind: ErrorKind::UnexpectedMessage, offset: 0 },
                    )
                    &&& final(out)@ == (*out)@ && final(s)@ == (*s)@
                }
                &&& c.system_title is Some && ciphered && c.security.key_set is Dedicated
                    && (*s)@.crypto.dedicated_bytes() is None ==> {
                    &&& r == Err::<usize, Error>(Error { kind: ErrorKind::Unsupported, offset: 0 })
                    &&& final(out)@ == (*out)@ && final(s)@ == (*s)@
                }
            },
{
}

/// What goes out when a session asks to associate is its request, with its proposal in it, in
/// the clear or protected under the global key, its own title and the next counter; and it
/// then waits for the answer, with the challenge that it sent.
pub proof fn law_request_goes_out<P: CryptoProvider>(
    s: SessionV<P>,
    challenge: Seq<u8>,
    before: Seq<u8>,
    after: Seq<u8>,
    then: SessionV<P>,
    n: usize,
)
    requires
        s.requests(challenge, before, after, then, Ok::<usize, Error>(n)),
        before.len() <= usize::MAX,
    ensures
        then.state is Associating,
        !(s.config.mechanism is Lowest || s.config.mechanism is Low) ==> then.client_challenge
            == challenge,
        after.skip(n as int) == before.skip(n as int),
        exists|info: Seq<u8>|
            {
                &&& after.take(n as int) == #[trigger] s.request(info, challenge).enc()
                &&& if s.config.security.authenticated || s.config.security.encrypted {
                    &&& then.counter == s.counter + 1
                    &&& s.crypto.auth_bytes() is Some && s.config.system_title is Some
                    &&& protected_by(
                        &s.crypto,
                        s.config.security.global(),
                        s.config.system_title->0@,
                        then.counter,
                        s.crypto.auth_bytes()->0,
                        s.initiate_plain(),
                    ) matches Ok(payload) && info == seq![0x21u8] + (CipheredServiceV {
                        security_control: s.config.security.control(),
                        invocation_counter: then.counter,
                        payload,
                    }).enc()
                } else {
                    then.counter == s.counter && info == s.initiate_plain()
                }
            },
{
    let info = s.user_information().0->Ok_0;
    let aarq = s.request(info, challenge);
    assert(after.take(n as int) =~= aarq.enc());
    assert(after.skip(n as int) =~= before.skip(n as int));
}

/// An exception in place of the answer is reported as one, and closes the session.
pub proof fn law_exception_is_reported<P: CryptoProvider>(s: SessionV<P>, apdu: Seq<u8>)
    requires
        apdu.len() > 0,
        apdu[0] == 0xD8,
    ensures
        s.associates(apdu).1 == in_state(s, SessionState::Closed),
        whole(ExceptionResponse::p(Cursor::start(apdu.skip(1)))) matches Ok(x) ==> s.associates(
            apdu,
        ).0 == Ok::<AssociationStep, Error>(AssociationStep::Exception(x)),
        whole(ExceptionResponse::p(Cursor::start(apdu.skip(1)))) matches Err(e) ==> s.associates(
            apdu,
        ).0 == Err::<AssociationStep, Error>(e),
{
}

/// A challenge is as long as the session is set up for, but no shorter than eight bytes and
/// no longer than sixty-four; one is drawn exactly where the security is high.
pub proof fn law_own_challenge_is_long_enough<P: CryptoProvider>(s: SessionV<P>)
    ensures
        8 <= s.challenge_len() <= 64,
        8 <= s.config.challenge_len <= 64 ==> s.challenge_len() == s.config.challenge_len,
        s.config.challenge_len < 8 ==> s.challenge_len() == 8,
        s.config.challenge_len > 64 ==> s.challenge_len() == 64,
        s.draws_challenge() ==> !(s.config.mechanism is Lowest || s.config.mechanism is Low),
        s.config.mechanism is HighGmac && s.config.security.is_none()
            && s.config.system_title is Some
            && s.initiate_fits() ==> s.draws_challenge(),
{
}

/// What a session does with what arrives and with what is asked of it is what is stated of
/// sessions: an answer to the request to associate, the server's proof, an answer to a
/// request, and a block of a transfer.
pub proof fn law_session_does_as_stated<P: CryptoProvider, const N: usize>(apdu: &[u8])
    ensures
        forall|s: &mut ClientSession<P, N>, r: Result<AssociationStep>|
            #![trigger call_ensures(ClientSession::<P, N>::handle_associate_response, (s, apdu), r)]
            call_ensures(ClientSession::<P, N>::handle_associate_response, (s, apdu), r) ==> r
                == (*s)@.associates(apdu@).0 && final(s)@ == (*s)@.associates(apdu@).1,
        forall|s: &mut ClientSession<P, N>, r: Result<AssociationStep>|
            #![trigger call_ensures(ClientSession::<P, N>::handle_hls_reply_response, (s, apdu), r)]
            call_ensures(ClientSession::<P, N>::handle_hls_reply_response, (s, apdu), r) ==> r
                == (*s)@.authenticates(apdu@).0 && final(s)@ == (*s)@.authenticates(apdu@).1,
        forall|s: &mut ClientSession<P, N>, out: &mut [u8], r: Result<usize>|
            #![trigger call_ensures(ClientSession::<P, N>::hls_reply_request, (s, out), r)]
            call_ensures(ClientSession::<P, N>::hls_reply_request, (s, out), r) ==> (*s)@.replies(
                N as nat,
                (*out)@,
                final(out)@,
                final(s)@,
                r,
            ),
        forall|s: &mut ClientSession<P, N>, buf: &mut [u8], r: Result<Response<'_>>|
            #![trigger call_ensures(ClientSession::<P, N>::handle_response, (s, apdu, buf), r)]
            call_ensures(ClientSession::<P, N>::handle_response, (s, apdu, buf), r) ==> {
                let (said, then) = (*s)@.handles(apdu@, (*buf)@.len());
                &&& final(s)@ == then
                &&& r matches Ok(x) ==> said == Ok::<ResponseV, Error>(x@)
                &&& r matches Err(e) ==> said == Err::<ResponseV, Error>(e)
            },
{
}

/// What may arrive in the clear where everything else has to be protected: an answer to a
/// request to associate or to release, and a refusal; and in the answer, where nothing is
/// protected, what was agreed or why nothing was.
pub proof fn law_what_may_be_plain(t: ApduTag)
    ensures
        plain_from_server().contains(t) <==> t is Aare || t is ReleaseResponse
            || t is ExceptionResponse,
        plain_initiate().contains(t) <==> t is InitiateResponse || t is ConfirmedServiceError,
        plain_from_client().contains(t) <==> t is Aarq || t is ReleaseRequest,
        plain_request().contains(t) <==> t is InitiateRequest,
{
    let a = plain_from_server();
    assert(a[0] is Aare && a[1] is ReleaseResponse && a[2] is ExceptionResponse);
    let b = plain_initiate();
    assert(b[0] is InitiateResponse && b[1] is ConfirmedServiceError);
    let c = plain_from_client();
    assert(c[0] is Aarq && c[1] is ReleaseRequest);
    let d = plain_request();
    assert(d[0] is InitiateRequest);
}

/// A list that asks for parts needs the server to have agreed to parts.
pub proof fn law_parts_need_agreement<P: CryptoProvider, const N: usize>(
    items: &[AttributeDescriptorWithSelection<'_>],
    values: &[Data<'_>],
    i: int,
)
    requires
        0 <= i < items@.len(),
        items@[i].access is Some,
    ensures
        forall|s: &mut ClientSession<P, N>, out: &mut [u8], r: Result<usize>|
            #![trigger call_ensures(ClientSession::<P, N>::get_request_with_list, (s, items, out), r)]
            call_ensures(ClientSession::<P, N>::get_request_with_list, (s, items, out), r)
                && r is Ok
                ==> may((*s)@, 0x04),
        forall|s: &mut ClientSession<P, N>, out: &mut [u8], r: Result<usize>|
            #![trigger call_ensures(ClientSession::<P, N>::set_request_with_list, (s, items, values, out), r)]
            call_ensures(ClientSession::<P, N>::set_request_with_list, (s, items, values, out), r)
                && r is Ok ==> may((*s)@, 0x04),
{
    let list = views(items@);
    assert(list[i].access is Some);
    assert(any_selected(list));
    let more = selection(any_selected(list));
    assert(more[0] == Conformance::SELECTIVE_ACCESS());
    assert forall|s: &mut ClientSession<P, N>, out: &mut [u8], r: Result<usize>|
        #![trigger call_ensures(ClientSession::<P, N>::get_request_with_list, (s, items, out), r)]
        call_ensures(ClientSession::<P, N>::get_request_with_list, (s, items, out), r)
            && r is Ok implies may((*s)@, 0x04) by {
        assert((*s)@.not_ready(more) is None);
        assert((*s)@.agreed(more[0]));
    }
    assert forall|s: &mut ClientSession<P, N>, out: &mut [u8], r: Result<usize>|
        #![trigger call_ensures(ClientSession::<P, N>::set_request_with_list, (s, items, values, out), r)]
        call_ensures(ClientSession::<P, N>::set_request_with_list, (s, items, values, out), r)
            && r is Ok implies may((*s)@, 0x04) by {
        assert((*s)@.not_ready(more) is None);
        assert((*s)@.agreed(more[0]));
    }
}

/// A transfer of the values of several attributes is begun for those attributes, with those
/// values, from their start.
pub proof fn law_list_transfer_is_begun<P: CryptoProvider, const N: usize>(
    items: &[AttributeDescriptorWithSelection<'_>],
    values: &[u8],
)
    ensures
        forall|s: &mut ClientSession<P, N>, scratch: &mut [u8], t: BlockSender<'_>|
            #![trigger call_ensures(ClientSession::<P, N>::set_transfer_with_list, (s, items, values, scratch), Ok::<BlockSender<'_>, Error>(t))]
            call_ensures(
                ClientSession::<P, N>::set_transfer_with_list,
                (s, items, values, scratch),
                Ok::<BlockSender<'_>, Error>(t),
            ) ==> {
                &&& (*s)@.state is Associated
                &&& may((*s)@, 0x08) && may((*s)@, 0x200) && may((*s)@, 0x800)
                &&& 0 < items@.len() <= 64
                &&& t@.target == TargetV::AttributeList(views(items@))
                &&& begun(
                    t@,
                    values@,
                    (*s)@,
                    enc_list::<AttributeDescriptorWithSelection>(views(items@)).len(),
                    N as nat,
                )
                &&& final(s)@ == (*s)@
            },
{
    assert forall|s: &mut ClientSession<P, N>, scratch: &mut [u8], t: BlockSender<'_>|
        #![trigger call_ensures(ClientSession::<P, N>::set_transfer_with_list, (s, items, values, scratch), Ok::<BlockSender<'_>, Error>(t))]
        call_ensures(
            ClientSession::<P, N>::set_transfer_with_list,
            (s, items, values, scratch),
            Ok::<BlockSender<'_>, Error>(t),
        ) implies (*s)@.state is Associated && may((*s)@, 0x08) && may((*s)@, 0x200) && may(
        (*s)@,
        0x800,
    ) by {
        let needed = seq![
            Conformance::SET(),
            Conformance::MULTIPLE_REFERENCES(),
            Conformance::BLOCK_TRANSFER_WITH_SET_OR_WRITE(),
        ];
        assert((*s)@.not_ready(needed) is None);
        assert((*s)@.agreed(needed[0]) && (*s)@.agreed(needed[1]) && (*s)@.agreed(needed[2]));
    }
}

/// A collector takes a block or refuses it, and refusing changes nothing; it starts and
/// restarts with nothing; and it gives out the bytes that it has gathered.
pub proof fn law_collector_does_as_stated(number: u32, data: &[u8])
    ensures
        forall|b: &mut [u8], c: BlockCollector<'_>|
            #![trigger call_ensures(BlockCollector::<'_>::new, (b,), c)]
            call_ensures(BlockCollector::<'_>::new, (b,), c) ==> c@.bytes.len() == 0 && c@.last == 0
                && c@.capacity == (*b)@.len(),
        forall|c: &mut BlockCollector<'_>, r: Result<()>|
            #![trigger call_ensures(BlockCollector::<'_>::push, (c, number, data), r)]
            call_ensures(BlockCollector::<'_>::push, (c, number, data), r) ==> {
                &&& r is Ok ==> final(c)@.bytes == (*c)@.bytes + data@ && final(c)@.last == number
                    && final(c)@.capacity == (*c)@.capacity
                &&& r is Err ==> final(c)@ == (*c)@
                &&& (*c)@.last < u32::MAX && (*c)@.bytes.len() <= (*c)@.capacity <= usize::MAX ==> (
                r is Ok <==> number == (*c)@.last + 1 && (*c)@.bytes.len() + data@.len()
                    <= (*c)@.capacity)
            },
        forall|c: &mut BlockCollector<'_>|
            #![trigger call_ensures(BlockCollector::<'_>::reset, (c,), ())]
            call_ensures(BlockCollector::<'_>::reset, (c,), ()) ==> final(c)@.bytes.len() == 0
                && final(c)@.last == 0 && final(c)@.capacity == (*c)@.capacity,
        forall|c: &BlockCollector<'_>, s: &[u8]|
            #![trigger call_ensures(BlockCollector::<'_>::bytes, (c,), s)]
            call_ensures(BlockCollector::<'_>::bytes, (c,), s) ==> s@ == c@.bytes,
{
}

/// A value whose bytes have all been gathered is read as that value.
pub proof fn law_gathered_value_is_read(v: DataV, c: &BlockCollector<'_>)
    requires
        v.valid(),
        v.encodable(),
        c@.bytes == v.enc(),
        v.enc().len() <= usize::MAX,
    ensures
        forall|r: Result<Data<'_>>|
            #![trigger call_ensures(BlockCollector::<'_>::value, (c,), r)]
            call_ensures(BlockCollector::<'_>::value, (c,), r) ==> r is Ok && r->Ok_0@.same(v),
{
    let at = Cursor::start(v.enc());
    assert(at.peek(v.enc().len()) =~= v.enc());
    law_data_round_trip(at, v);
}

} // verus!
