//! What stands on the wire, byte by byte, for every form of every service.

use vstd::prelude::*;

#[allow(unused_imports)]
use super::apdu::ApduV;
#[allow(unused_imports)]
use super::ids::OptionalDateTime;
#[allow(unused_imports)]
use super::initiate::{Conformance, InitiateRequestV, InitiateResponseV};
#[allow(unused_imports)]
use super::list::{enc_list, enc_opt, enc_run, Wire};
#[allow(unused_imports)]
use super::result::{ActionResult, DataAccessResult};
#[allow(unused_imports)]
use super::service::{
    AccessRequestSpecification, AccessRequestSpecificationV, AccessRequestV,
    AccessResponseSpecification, AccessResponseSpecificationV, AccessResponseV, ActionRequestV,
    ActionResponseV, ActionResponseWithOptionalData, ActionResponseWithOptionalDataV,
    AttributeDescriptorV, AttributeDescriptorWithSelection, AttributeDescriptorWithSelectionV,
    BlockResultV, DataBlockGV, DataBlockSAV, DataNotificationV, GetDataResult, GetDataResultV,
    GetRequestV, GetResponseV, MethodDescriptor, MethodDescriptorV, ReadRequestV, ReadResponseV,
    ReadResult, ReadResultV, SelectiveAccess, SelectiveAccessV, SetRequestV, SetResponseV,
    UnconfirmedWriteRequestV, VariableAccess, VariableAccessV, WriteRequestV, WriteResponseV,
    WriteResult, WriteResultV,
};
#[allow(unused_imports)]
use super::tag::{tag_of, ApduTag};
#[allow(unused_imports)]
use crate::axdr::data::{Data, DataV};
#[allow(unused_imports)]
use crate::bytes::be_bytes;
#[allow(unused_imports)]
use crate::codec::{enc_length, Error, ErrorKind, Result};

verus! {

/// A number of two bytes, the most significant first.
pub open spec fn two(n: u16) -> Seq<u8> {
    seq![(n / 0x100) as u8, (n % 0x100) as u8]
}

/// A number of four bytes, the most significant first.
pub open spec fn four(n: u32) -> Seq<u8> {
    seq![
        (n / 0x100_0000) as u8,
        (n / 0x1_0000 % 0x100) as u8,
        (n / 0x100 % 0x100) as u8,
        (n % 0x100) as u8,
    ]
}

/// A truth as a byte.
pub open spec fn yes(b: bool) -> u8 {
    if b {
        1
    } else {
        0
    }
}

/// Numbers go out most significant byte first.
pub proof fn law_numbers_are_big_endian(a: u16, b: u32)
    ensures
        be_bytes(a as nat, 2) == two(a),
        be_bytes(b as nat, 4) == four(b),
{
    reveal_with_fuel(be_bytes, 5);
    assert(be_bytes(a as nat, 2) =~= two(a));
    assert(be_bytes(b as nat, 4) =~= four(b));
}

/// A length below 128 is one byte; a longer one is a byte that counts those that follow.
pub proof fn law_length_bytes(n: u32)
    ensures
        n < 0x80 ==> enc_length(n as nat) == seq![n as u8],
        0x80 <= n < 0x100 ==> enc_length(n as nat) == seq![0x81u8, n as u8],
        0x100 <= n < 0x1_0000 ==> enc_length(n as nat) == seq![0x82u8] + two(n as u16),
        0x1_0000 <= n < 0x100_0000 ==> enc_length(n as nat) == seq![0x83u8] + four(n).skip(1),
        0x100_0000 <= n ==> enc_length(n as nat) == seq![0x84u8] + four(n),
{
    law_numbers_are_big_endian(n as u16, n);
    reveal_with_fuel(be_bytes, 4);
    if 0x1_0000 <= n < 0x100_0000 {
        assert(enc_length(n as nat) =~= seq![0x83u8] + four(n).skip(1));
    }
    if 0x80 <= n < 0x100 {
        assert(enc_length(n as nat) =~= seq![0x81u8, n as u8]);
    }
}

/// An object's attribute or method is named by its class, the six bytes of its name and a
/// number.
pub open spec fn named(class_id: u16, instance_id: Seq<u8>, index: i8) -> Seq<u8> {
    two(class_id) + instance_id + seq![index as u8]
}

/// A part is named by a selector and its parameter, behind a one; a zero stands for the whole.
pub open spec fn part(access: Option<SelectiveAccessV>) -> Seq<u8> {
    match access {
        Some(a) => seq![1u8] + (seq![a.selector] + a.parameters.enc()),
        None => seq![0u8],
    }
}

/// What may be missing stands behind a one; a zero stands for nothing.
pub proof fn law_missing_is_a_zero<'a, T: Wire<'a>>(v: T::V)
    ensures
        enc_opt::<T>(None) == seq![0u8],
        enc_opt::<T>(Some(v)) == seq![1u8] + T::enc_of(v),
{
}

/// A list is its length and then its items, one after the other.
pub proof fn law_list_is_its_items<'a, T: Wire<'a>>(s: Seq<T::V>, v: T::V)
    ensures
        enc_list::<T>(s) == enc_length(s.len()) + enc_run::<T>(s),
        enc_run::<T>(Seq::empty()) == Seq::<u8>::empty(),
        enc_run::<T>(s.push(v)) == enc_run::<T>(s) + T::enc_of(v),
{
    assert(s.push(v).drop_last() =~= s);
}

/// An item of a list is written as it is by itself.
pub proof fn law_items_are_written_as_they_are(
    a: DataV,
    b: SelectiveAccessV,
    c: AttributeDescriptorWithSelectionV,
    d: GetDataResultV,
    e: MethodDescriptorV,
    f: ActionResponseWithOptionalDataV,
    g: AccessRequestSpecificationV,
    h: AccessResponseSpecificationV,
    i: VariableAccessV,
    j: ReadResultV,
    k: WriteResultV,
    l: DataAccessResult,
)
    ensures
        <Data<'static> as Wire<'static>>::enc_of(a) == a.enc(),
        <SelectiveAccess<'static> as Wire<'static>>::enc_of(b) == b.enc(),
        <AttributeDescriptorWithSelection<'static> as Wire<'static>>::enc_of(c) == c.enc(),
        <GetDataResult<'static> as Wire<'static>>::enc_of(d) == d.enc(),
        <MethodDescriptor as Wire<'static>>::enc_of(e) == e.enc(),
        <ActionResponseWithOptionalData<'static> as Wire<'static>>::enc_of(f) == f.enc(),
        <AccessRequestSpecification<'static> as Wire<'static>>::enc_of(g) == g.enc(),
        <AccessResponseSpecification as Wire<'static>>::enc_of(h) == h.enc(),
        <VariableAccess<'static> as Wire<'static>>::enc_of(i) == i.enc(),
        <ReadResult<'static> as Wire<'static>>::enc_of(j) == j.enc(),
        <WriteResult as Wire<'static>>::enc_of(k) == k.enc(),
        <DataAccessResult as Wire<'static>>::enc_of(l) == seq![l.as_u8()],
{
}

/// What the parts of messages are made of.
pub proof fn law_part_bytes(
    d: AttributeDescriptorV,
    m: MethodDescriptorV,
    a: SelectiveAccessV,
    s: AttributeDescriptorWithSelectionV,
    g: DataBlockGV,
    b: DataBlockSAV,
    r: ActionResponseWithOptionalDataV,
)
    ensures
        d.enc() == named(d.class_id, d.instance_id, d.attribute_id),
        m.enc() == named(m.class_id, m.instance_id, m.method_id),
        a.enc() == seq![a.selector] + a.parameters.enc(),
        s.enc() == named(
            s.descriptor.class_id,
            s.descriptor.instance_id,
            s.descriptor.attribute_id,
        ) + part(s.access),
        b.enc() == seq![yes(b.last_block)] + four(b.block_number) + enc_length(b.raw_data.len())
            + b.raw_data,
        g.enc() == seq![yes(g.last_block)] + four(g.block_number) + (match g.result {
            BlockResultV::RawData(v) => seq![0u8] + enc_length(v.len()) + v,
            BlockResultV::Error(e) => seq![1u8, e.as_u8()],
        }),
        r.enc() == seq![r.result.as_u8()] + (match r.return_parameters {
            None => seq![0u8],
            Some(GetDataResultV::Data(v)) => seq![1u8, 0u8] + v.enc(),
            Some(GetDataResultV::Error(e)) => seq![1u8, 1u8, e.as_u8()],
        }),
{
    reveal(BlockResultV::enc);
    reveal(GetDataResultV::enc);
    law_numbers_are_big_endian(d.class_id, g.block_number);
    law_numbers_are_big_endian(m.class_id, b.block_number);
    law_numbers_are_big_endian(s.descriptor.class_id, 0);
    assert(b.enc() =~= seq![yes(b.last_block)] + four(b.block_number) + enc_length(
        b.raw_data.len(),
    ) + b.raw_data);
    assert(g.enc() =~= seq![yes(g.last_block)] + four(g.block_number) + (match g.result {
        BlockResultV::RawData(v) => seq![0u8] + enc_length(v.len()) + v,
        BlockResultV::Error(e) => seq![1u8, e.as_u8()],
    }));
    assert(r.enc() =~= seq![r.result.as_u8()] + (match r.return_parameters {
        None => seq![0u8],
        Some(GetDataResultV::Data(v)) => seq![1u8, 0u8] + v.enc(),
        Some(GetDataResultV::Error(e)) => seq![1u8, 1u8, e.as_u8()],
    }));
    assert(s.enc() =~= named(
        s.descriptor.class_id,
        s.descriptor.instance_id,
        s.descriptor.attribute_id,
    ) + part(s.access));
}

/// The bytes of a read.
pub proof fn law_get_request_bytes(req: GetRequestV)
    ensures
        ApduV::GetRequest(req).enc() == (match req {
                GetRequestV::Normal { invoke_id, descriptor, access } =>
                    seq![0xC0u8, 1u8, invoke_id.0]
                    + named(descriptor.class_id, descriptor.instance_id, descriptor.attribute_id)
                    + part(access),
                GetRequestV::Next { invoke_id, block_number } => seq![0xC0u8, 2u8, invoke_id.0]
                    + four(block_number),
                GetRequestV::WithList { invoke_id, list } => seq![0xC0u8, 3u8, invoke_id.0]
                    + enc_list::<AttributeDescriptorWithSelection<'static>>(list),
            }),
{
    reveal(ApduV::enc);
    reveal(GetRequestV::enc);
    reveal(GetDataResultV::enc);
    match req {
        GetRequestV::Normal { invoke_id, descriptor, access } => {
            law_numbers_are_big_endian(descriptor.class_id, 0);
            assert(ApduV::GetRequest(req).enc() =~= seq![0xC0u8, 1u8, invoke_id.0]
                + named(descriptor.class_id, descriptor.instance_id, descriptor.attribute_id)
                + part(access));
        },
        GetRequestV::Next { invoke_id, block_number } => {
            law_numbers_are_big_endian(0, block_number);
            assert(ApduV::GetRequest(req).enc() =~= seq![0xC0u8, 2u8, invoke_id.0]
                + four(block_number));
        },
        GetRequestV::WithList { invoke_id, list } => {
            assert(ApduV::GetRequest(req).enc() =~= seq![0xC0u8, 3u8, invoke_id.0]
                + enc_list::<AttributeDescriptorWithSelection<'static>>(list));
        },
    }
}

/// The bytes of the answer to a read.
pub proof fn law_get_response_bytes(res: GetResponseV)
    ensures
        ApduV::GetResponse(res).enc() == (match res {
                GetResponseV::Normal { invoke_id, result } => seq![0xC4u8, 1u8, invoke_id.0]
                    + (match result {
                        GetDataResultV::Data(v) => seq![0u8] + v.enc(),
                        GetDataResultV::Error(e) => seq![1u8, e.as_u8()],
                    }),
                GetResponseV::WithDataBlock { invoke_id, block } => seq![0xC4u8, 2u8, invoke_id.0]
                    + block.enc(),
                GetResponseV::WithList { invoke_id, results } => seq![0xC4u8, 3u8, invoke_id.0]
                    + enc_list::<GetDataResult<'static>>(results),
            }),
{
    reveal(ApduV::enc);
    reveal(GetResponseV::enc);
    reveal(GetDataResultV::enc);
    match res {
        GetResponseV::Normal { invoke_id, result } => {
            assert(ApduV::GetResponse(res).enc() =~= seq![0xC4u8, 1u8, invoke_id.0]
                + (match result {
                        GetDataResultV::Data(v) => seq![0u8] + v.enc(),
                        GetDataResultV::Error(e) => seq![1u8, e.as_u8()],
                    }));
        },
        GetResponseV::WithDataBlock { invoke_id, block } => {
            assert(ApduV::GetResponse(res).enc() =~= seq![0xC4u8, 2u8, invoke_id.0] + block.enc());
        },
        GetResponseV::WithList { invoke_id, results } => {
            assert(ApduV::GetResponse(res).enc() =~= seq![0xC4u8, 3u8, invoke_id.0]
                + enc_list::<GetDataResult<'static>>(results));
        },
    }
}

/// The bytes of a write.
#[verifier::rlimit(60)]
pub proof fn law_set_request_bytes(req: SetRequestV)
    ensures
        ApduV::SetRequest(req).enc() == (match req {
                SetRequestV::Normal { invoke_id, descriptor, access, value } =>
                    seq![0xC1u8, 1u8, invoke_id.0]
                    + named(descriptor.class_id, descriptor.instance_id, descriptor.attribute_id)
                    + part(access) + value.enc(),
                SetRequestV::WithFirstDataBlock { invoke_id, descriptor, access, block } =>
                    seq![0xC1u8, 2u8, invoke_id.0]
                    + named(descriptor.class_id, descriptor.instance_id, descriptor.attribute_id)
                    + part(access) + (seq![yes(block.last_block)] + four(block.block_number)
                    + enc_length(block.raw_data.len()) + block.raw_data),
                SetRequestV::WithDataBlock { invoke_id, block } => seq![0xC1u8, 3u8, invoke_id.0]
                    + (seq![yes(block.last_block)] + four(block.block_number)
                    + enc_length(block.raw_data.len()) + block.raw_data),
                SetRequestV::WithList { invoke_id, descriptors, values } =>
                    seq![0xC1u8, 4u8, invoke_id.0]
                    + enc_list::<AttributeDescriptorWithSelection<'static>>(descriptors)
                    + enc_list::<Data<'static>>(values),
                SetRequestV::WithListAndFirstDataBlock { invoke_id, descriptors, block } =>
                    seq![0xC1u8, 5u8, invoke_id.0]
                    + enc_list::<AttributeDescriptorWithSelection<'static>>(descriptors)
                    + (seq![yes(block.last_block)] + four(block.block_number)
                    + enc_length(block.raw_data.len()) + block.raw_data),
            }),
{
    reveal(ApduV::enc);
    reveal(SetRequestV::enc);
    reveal(GetDataResultV::enc);
    match req {
        SetRequestV::Normal { invoke_id, descriptor, access, value } => {
            law_numbers_are_big_endian(descriptor.class_id, 0);
            assert(enc_opt::<SelectiveAccess<'static>>(access) =~= part(access));
            assert(ApduV::SetRequest(req).enc() =~= seq![0xC1u8, 1u8, invoke_id.0]
                + named(descriptor.class_id, descriptor.instance_id, descriptor.attribute_id)
                + part(access) + value.enc());
        },
        SetRequestV::WithFirstDataBlock { invoke_id, descriptor, access, block } => {
            law_numbers_are_big_endian(descriptor.class_id, 0);
            law_numbers_are_big_endian(0, block.block_number);
            assert(enc_opt::<SelectiveAccess<'static>>(access) =~= part(access));
            assert(block.enc() =~= (seq![yes(block.last_block)] + four(block.block_number)
                + enc_length(block.raw_data.len()) + block.raw_data));
            assert(ApduV::SetRequest(req).enc() =~= seq![0xC1u8, 2u8, invoke_id.0]
                + named(descriptor.class_id, descriptor.instance_id, descriptor.attribute_id)
                + part(access) + (seq![yes(block.last_block)] + four(block.block_number)
                + enc_length(block.raw_data.len()) + block.raw_data));
        },
        SetRequestV::WithDataBlock { invoke_id, block } => {
            law_numbers_are_big_endian(0, block.block_number);
            assert(block.enc() =~= (seq![yes(block.last_block)] + four(block.block_number)
                + enc_length(block.raw_data.len()) + block.raw_data));
            assert(ApduV::SetRequest(req).enc() =~= seq![0xC1u8, 3u8, invoke_id.0]
                + (seq![yes(block.last_block)] + four(block.block_number)
                + enc_length(block.raw_data.len()) + block.raw_data));
        },
        SetRequestV::WithList { invoke_id, descriptors, values } => {
            assert(ApduV::SetRequest(req).enc() =~= seq![0xC1u8, 4u8, invoke_id.0]
                + enc_list::<AttributeDescriptorWithSelection<'static>>(descriptors)
                + enc_list::<Data<'static>>(values));
        },
        SetRequestV::WithListAndFirstDataBlock { invoke_id, descriptors, block } => {
            law_numbers_are_big_endian(0, block.block_number);
            assert(block.enc() =~= (seq![yes(block.last_block)] + four(block.block_number)
                + enc_length(block.raw_data.len()) + block.raw_data));
            assert(ApduV::SetRequest(req).enc() =~= seq![0xC1u8, 5u8, invoke_id.0]
                + enc_list::<AttributeDescriptorWithSelection<'static>>(descriptors)
                + (seq![yes(block.last_block)] + four(block.block_number)
                + enc_length(block.raw_data.len()) + block.raw_data));
        },
    }
}

/// The bytes of the answer to a write.
#[verifier::rlimit(60)]
pub proof fn law_set_response_bytes(res: SetResponseV)
    ensures
        ApduV::SetResponse(res).enc() == (match res {
                SetResponseV::Normal { invoke_id, result } =>
                    seq![0xC5u8, 1u8, invoke_id.0, result.as_u8()],
                SetResponseV::DataBlock { invoke_id, block_number } =>
                    seq![0xC5u8, 2u8, invoke_id.0] + four(block_number),
                SetResponseV::LastDataBlock { invoke_id, result, block_number } =>
                    seq![0xC5u8, 3u8, invoke_id.0, result.as_u8()] + four(block_number),
                SetResponseV::LastDataBlockWithList { invoke_id, results, block_number } =>
                    seq![0xC5u8, 4u8, invoke_id.0] + enc_list::<DataAccessResult>(results)
                    + four(block_number),
                SetResponseV::WithList { invoke_id, results } => seq![0xC5u8, 5u8, invoke_id.0]
                    + enc_list::<DataAccessResult>(results),
            }),
{
    reveal(ApduV::enc);
    reveal(SetResponseV::enc);
    reveal(GetDataResultV::enc);
    match res {
        SetResponseV::Normal { invoke_id, result } => {
            assert(ApduV::SetResponse(res).enc() =~= seq![0xC5u8, 1u8, invoke_id.0,
                result.as_u8()]);
        },
        SetResponseV::DataBlock { invoke_id, block_number } => {
            law_numbers_are_big_endian(0, block_number);
            assert(ApduV::SetResponse(res).enc() =~= seq![0xC5u8, 2u8, invoke_id.0]
                + four(block_number));
        },
        SetResponseV::LastDataBlock { invoke_id, result, block_number } => {
            law_numbers_are_big_endian(0, block_number);
            assert(ApduV::SetResponse(res).enc() =~= seq![0xC5u8, 3u8, invoke_id.0, result.as_u8()]
                + four(block_number));
        },
        SetResponseV::LastDataBlockWithList { invoke_id, results, block_number } => {
            law_numbers_are_big_endian(0, block_number);
            assert(ApduV::SetResponse(res).enc() =~= seq![0xC5u8, 4u8, invoke_id.0]
                + enc_list::<DataAccessResult>(results) + four(block_number));
        },
        SetResponseV::WithList { invoke_id, results } => {
            assert(ApduV::SetResponse(res).enc() =~= seq![0xC5u8, 5u8, invoke_id.0]
                + enc_list::<DataAccessResult>(results));
        },
    }
}

/// The bytes of an invocation.
#[verifier::rlimit(60)]
pub proof fn law_action_request_bytes(req: ActionRequestV)
    ensures
        ApduV::ActionRequest(req).enc() == (match req {
                ActionRequestV::Normal { invoke_id, descriptor, parameters } =>
                    seq![0xC3u8, 1u8, invoke_id.0]
                    + named(descriptor.class_id, descriptor.instance_id, descriptor.method_id)
                    + (match parameters {
                        Some(v) => seq![1u8] + v.enc(),
                        None => seq![0u8],
                    }),
                ActionRequestV::NextPblock { invoke_id, block_number } =>
                    seq![0xC3u8, 2u8, invoke_id.0] + four(block_number),
                ActionRequestV::WithList { invoke_id, descriptors, parameters } =>
                    seq![0xC3u8, 3u8, invoke_id.0] + enc_list::<MethodDescriptor>(descriptors)
                    + enc_list::<Data<'static>>(parameters),
                ActionRequestV::WithFirstPblock { invoke_id, descriptor, block } =>
                    seq![0xC3u8, 4u8, invoke_id.0]
                    + named(descriptor.class_id, descriptor.instance_id, descriptor.method_id)
                    + (seq![yes(block.last_block)] + four(block.block_number)
                    + enc_length(block.raw_data.len()) + block.raw_data),
                ActionRequestV::WithListAndFirstPblock { invoke_id, descriptors, block } =>
                    seq![0xC3u8, 5u8, invoke_id.0] + enc_list::<MethodDescriptor>(descriptors)
                    + (seq![yes(block.last_block)] + four(block.block_number)
                    + enc_length(block.raw_data.len()) + block.raw_data),
                ActionRequestV::WithPblock { invoke_id, block } => seq![0xC3u8, 6u8, invoke_id.0]
                    + (seq![yes(block.last_block)] + four(block.block_number)
                    + enc_length(block.raw_data.len()) + block.raw_data),
            }),
{
    reveal(ApduV::enc);
    reveal(ActionRequestV::enc);
    reveal(GetDataResultV::enc);
    match req {
        ActionRequestV::Normal { invoke_id, descriptor, parameters } => {
            law_numbers_are_big_endian(descriptor.class_id, 0);
            assert(ApduV::ActionRequest(req).enc() =~= seq![0xC3u8, 1u8, invoke_id.0]
                + named(descriptor.class_id, descriptor.instance_id, descriptor.method_id)
                + (match parameters {
                        Some(v) => seq![1u8] + v.enc(),
                        None => seq![0u8],
                    }));
        },
        ActionRequestV::NextPblock { invoke_id, block_number } => {
            law_numbers_are_big_endian(0, block_number);
            assert(ApduV::ActionRequest(req).enc() =~= seq![0xC3u8, 2u8, invoke_id.0]
                + four(block_number));
        },
        ActionRequestV::WithList { invoke_id, descriptors, parameters } => {
            assert(ApduV::ActionRequest(req).enc() =~= seq![0xC3u8, 3u8, invoke_id.0]
                + enc_list::<MethodDescriptor>(descriptors)
                + enc_list::<Data<'static>>(parameters));
        },
        ActionRequestV::WithFirstPblock { invoke_id, descriptor, block } => {
            law_numbers_are_big_endian(descriptor.class_id, 0);
            law_numbers_are_big_endian(0, block.block_number);
            assert(block.enc() =~= (seq![yes(block.last_block)] + four(block.block_number)
                + enc_length(block.raw_data.len()) + block.raw_data));
            assert(ApduV::ActionRequest(req).enc() =~= seq![0xC3u8, 4u8, invoke_id.0]
                + named(descriptor.class_id, descriptor.instance_id, descriptor.method_id)
                + (seq![yes(block.last_block)] + four(block.block_number)
                + enc_length(block.raw_data.len()) + block.raw_data));
        },
        ActionRequestV::WithListAndFirstPblock { invoke_id, descriptors, block } => {
            law_numbers_are_big_endian(0, block.block_number);
            assert(block.enc() =~= (seq![yes(block.last_block)] + four(block.block_number)
                + enc_length(block.raw_data.len()) + block.raw_data));
            assert(ApduV::ActionRequest(req).enc() =~= seq![0xC3u8, 5u8, invoke_id.0]
                + enc_list::<MethodDescriptor>(descriptors)
                + (seq![yes(block.last_block)] + four(block.block_number)
                + enc_length(block.raw_data.len()) + block.raw_data));
        },
        ActionRequestV::WithPblock { invoke_id, block } => {
            law_numbers_are_big_endian(0, block.block_number);
            assert(block.enc() =~= (seq![yes(block.last_block)] + four(block.block_number)
                + enc_length(block.raw_data.len()) + block.raw_data));
            assert(ApduV::ActionRequest(req).enc() =~= seq![0xC3u8, 6u8, invoke_id.0]
                + (seq![yes(block.last_block)] + four(block.block_number)
                + enc_length(block.raw_data.len()) + block.raw_data));
        },
    }
}

/// The bytes of the answer to an invocation.
pub proof fn law_action_response_bytes(res: ActionResponseV)
    ensures
        ApduV::ActionResponse(res).enc() == (match res {
                ActionResponseV::Normal { invoke_id, response } => seq![0xC7u8, 1u8, invoke_id.0]
                    + response.enc(),
                ActionResponseV::WithPblock { invoke_id, block } => seq![0xC7u8, 2u8, invoke_id.0]
                    + (seq![yes(block.last_block)] + four(block.block_number)
                    + enc_length(block.raw_data.len()) + block.raw_data),
                ActionResponseV::WithList { invoke_id, responses } => seq![0xC7u8, 3u8, invoke_id.0]
                    + enc_list::<ActionResponseWithOptionalData<'static>>(responses),
                ActionResponseV::NextPblock { invoke_id, block_number } =>
                    seq![0xC7u8, 4u8, invoke_id.0] + four(block_number),
            }),
{
    reveal(ApduV::enc);
    reveal(ActionResponseV::enc);
    reveal(GetDataResultV::enc);
    match res {
        ActionResponseV::Normal { invoke_id, response } => {
            assert(ApduV::ActionResponse(res).enc() =~= seq![0xC7u8, 1u8, invoke_id.0]
                + response.enc());
        },
        ActionResponseV::WithPblock { invoke_id, block } => {
            law_numbers_are_big_endian(0, block.block_number);
            assert(ApduV::ActionResponse(res).enc() =~= seq![0xC7u8, 2u8, invoke_id.0]
                + (seq![yes(block.last_block)] + four(block.block_number)
                + enc_length(block.raw_data.len()) + block.raw_data));
        },
        ActionResponseV::WithList { invoke_id, responses } => {
            assert(ApduV::ActionResponse(res).enc() =~= seq![0xC7u8, 3u8, invoke_id.0]
                + enc_list::<ActionResponseWithOptionalData<'static>>(responses));
        },
        ActionResponseV::NextPblock { invoke_id, block_number } => {
            law_numbers_are_big_endian(0, block_number);
            assert(ApduV::ActionResponse(res).enc() =~= seq![0xC7u8, 4u8, invoke_id.0]
                + four(block_number));
        },
    }
}

/// The bytes of the operations of an access request, and of what they came to.
pub proof fn law_operation_bytes(op: AccessRequestSpecificationV, r: AccessResponseSpecificationV)
    ensures
        op.enc() == (match op {
            AccessRequestSpecificationV::Get(d) => seq![1u8] + d.enc(),
            AccessRequestSpecificationV::Write(d) => seq![2u8] + d.enc(),
            AccessRequestSpecificationV::Action(d) => seq![3u8] + d.enc(),
            AccessRequestSpecificationV::GetWithSelection(d) => seq![4u8] + d.enc(),
            AccessRequestSpecificationV::WriteWithSelection(d) => seq![5u8] + d.enc(),
        }),
        r.enc() == (match r {
            AccessResponseSpecificationV::Get(c) => seq![1u8, c.as_u8()],
            AccessResponseSpecificationV::Write(c) => seq![2u8, c.as_u8()],
            AccessResponseSpecificationV::Action(c) => seq![3u8, c.as_u8()],
        }),
{
    reveal(AccessRequestSpecificationV::enc);
    reveal(AccessResponseSpecificationV::enc);
    match r {
        AccessResponseSpecificationV::Get(c) => assert(r.enc() =~= seq![1u8, c.as_u8()]),
        AccessResponseSpecificationV::Write(c) => assert(r.enc() =~= seq![2u8, c.as_u8()]),
        AccessResponseSpecificationV::Action(c) => assert(r.enc() =~= seq![3u8, c.as_u8()]),
    }
}

/// The bytes of an access request, of its answer, and of a notification.
pub proof fn law_access_bytes(q: AccessRequestV, a: AccessResponseV, n: DataNotificationV)
    ensures
        ApduV::AccessRequest(q).enc() == seq![0xD9u8] + four(q.long_invoke_id.0) + stamp(
            q.date_time,
        ) + enc_list::<AccessRequestSpecification<'static>>(q.specification) + enc_list::<
            Data<'static>,
        >(q.data),
        a.request_specification is None ==> ApduV::AccessResponse(a).enc() == seq![0xDAu8] + four(
            a.long_invoke_id.0,
        ) + stamp(a.date_time) + seq![0u8] + enc_list::<Data<'static>>(a.data) + enc_list::<
            AccessResponseSpecification,
        >(a.response_specification),
        ApduV::DataNotification(n).enc() == seq![0x0Fu8] + four(n.long_invoke_id.0) + stamp(
            n.date_time,
        ) + n.body.enc(),
{
    reveal(ApduV::enc);
    law_numbers_are_big_endian(0, q.long_invoke_id.0);
    law_numbers_are_big_endian(0, a.long_invoke_id.0);
    law_numbers_are_big_endian(0, n.long_invoke_id.0);
    assert(q.date_time.enc() =~= stamp(q.date_time));
    assert(a.date_time.enc() =~= stamp(a.date_time));
    assert(n.date_time.enc() =~= stamp(n.date_time));
    assert(ApduV::AccessRequest(q).enc() =~= seq![0xD9u8] + four(q.long_invoke_id.0) + stamp(
        q.date_time,
    ) + enc_list::<AccessRequestSpecification<'static>>(q.specification) + enc_list::<
        Data<'static>,
    >(q.data));
    if a.request_specification is None {
        assert(ApduV::AccessResponse(a).enc() =~= seq![0xDAu8] + four(a.long_invoke_id.0) + stamp(
            a.date_time,
        ) + seq![0u8] + enc_list::<Data<'static>>(a.data) + enc_list::<
            AccessResponseSpecification,
        >(a.response_specification));
    }
    assert(ApduV::DataNotification(n).enc() =~= seq![0x0Fu8] + four(n.long_invoke_id.0) + stamp(
        n.date_time,
    ) + n.body.enc());
}

/// A time that may be missing: its twelve bytes behind their length, or a zero.
pub open spec fn stamp(t: OptionalDateTime) -> Seq<u8> {
    match t.0 {
        Some(d) => seq![12u8] + d.wire(),
        None => seq![0u8],
    }
}

/// The bytes of what names something by a short name, and of the answers.
pub proof fn law_short_name_bytes(v: VariableAccessV, r: ReadResultV, w: WriteResultV)
    ensures
        v.enc() == (match v {
            VariableAccessV::VariableName(name) => seq![2u8] + two(name),
            VariableAccessV::Parameterized { name, selector, parameter } => seq![4u8] + two(name)
                + seq![selector] + parameter.enc(),
            VariableAccessV::BlockNumber(n) => seq![5u8] + two(n),
            VariableAccessV::ReadDataBlock { last_block, block_number, raw_data } => seq![
                6u8,
                yes(last_block),
            ] + two(block_number) + enc_length(raw_data.len()) + raw_data,
            VariableAccessV::WriteDataBlock { last_block, block_number } => seq![
                7u8,
                yes(last_block),
            ] + two(block_number),
        }),
        r.enc() == (match r {
            ReadResultV::Data(d) => seq![0u8] + d.enc(),
            ReadResultV::Error(e) => seq![1u8, e.as_u8()],
            ReadResultV::Block { last_block, block_number, raw_data } => seq![2u8, yes(last_block)]
                + two(block_number) + enc_length(raw_data.len()) + raw_data,
            ReadResultV::BlockNumber(n) => seq![3u8] + two(n),
        }),
        w.enc() == (match w {
            WriteResultV::Success => seq![0u8],
            WriteResultV::Error(e) => seq![1u8, e.as_u8()],
            WriteResultV::BlockNumber(n) => seq![2u8] + two(n),
        }),
{
    reveal(VariableAccessV::enc);
    reveal(ReadResultV::enc);
    reveal(WriteResultV::enc);
    match v {
        VariableAccessV::VariableName(n) => law_numbers_are_big_endian(n, 0),
        VariableAccessV::Parameterized { name, .. } => law_numbers_are_big_endian(name, 0),
        VariableAccessV::BlockNumber(n) => law_numbers_are_big_endian(n, 0),
        VariableAccessV::ReadDataBlock { last_block, block_number, raw_data } => {
            law_numbers_are_big_endian(block_number, 0);
            assert(v.enc() =~= seq![6u8, yes(last_block)] + two(block_number) + enc_length(
                raw_data.len(),
            ) + raw_data);
        },
        VariableAccessV::WriteDataBlock { last_block, block_number } => {
            law_numbers_are_big_endian(block_number, 0);
            assert(v.enc() =~= seq![7u8, yes(last_block)] + two(block_number));
        },
    }
    match r {
        ReadResultV::Error(e) => assert(r.enc() =~= seq![1u8, e.as_u8()]),
        ReadResultV::Block { last_block, block_number, raw_data } => {
            law_numbers_are_big_endian(block_number, 0);
            assert(r.enc() =~= seq![2u8, yes(last_block)] + two(block_number) + enc_length(
                raw_data.len(),
            ) + raw_data);
        },
        ReadResultV::BlockNumber(n) => law_numbers_are_big_endian(n, 0),
        _ => {},
    }
    match w {
        WriteResultV::Error(e) => assert(w.enc() =~= seq![1u8, e.as_u8()]),
        WriteResultV::BlockNumber(n) => law_numbers_are_big_endian(n, 0),
        _ => {},
    }
}

/// The bytes of the short-name services.
pub proof fn law_short_service_bytes(
    q: ReadRequestV,
    a: ReadResponseV,
    w: WriteRequestV,
    u: UnconfirmedWriteRequestV,
    b: WriteResponseV,
)
    ensures
        ApduV::ReadRequest(q).enc() == seq![0x05u8] + enc_list::<VariableAccess<'static>>(
            q.specification,
        ),
        ApduV::ReadResponse(a).enc() == seq![0x0Cu8] + enc_list::<ReadResult<'static>>(a.results),
        ApduV::WriteRequest(w).enc() == seq![0x06u8] + (enc_list::<VariableAccess<'static>>(
            w.specification,
        ) + enc_list::<Data<'static>>(w.values)),
        ApduV::UnconfirmedWriteRequest(u).enc() == seq![0x16u8] + (enc_list::<
            VariableAccess<'static>,
        >(u.specification) + enc_list::<Data<'static>>(u.values)),
        ApduV::WriteResponse(b).enc() == seq![0x0Du8] + enc_list::<WriteResult>(b.results),
{
    reveal(ApduV::enc);
}

/// The bytes of what opens an association: the key of its own if there is one, whether an
/// answer is allowed, the quality of service if any is asked for, the version, the flags and
/// the most that is received.
pub proof fn law_initiate_bytes(q: InitiateRequestV, a: InitiateResponseV)
    ensures
        q.enc() == (match q.dedicated_key {
            Some(k) => seq![1u8] + (enc_length(k.len()) + k),
            None => seq![0u8],
        }) + (if q.response_allowed {
            seq![0u8]
        } else {
            seq![1u8, 0u8]
        }) + (match q.proposed_quality_of_service {
            Some(v) => seq![1u8, v as u8],
            None => seq![0u8],
        }) + seq![q.proposed_dlms_version] + (seq![0x5Fu8, 0x1Fu8, 4u8, 0u8] + be_bytes(
            q.proposed_conformance.0 as nat,
            3,
        )) + two(q.client_max_receive_pdu_size),
        a.enc() == (match a.negotiated_quality_of_service {
            Some(v) => seq![1u8, v as u8],
            None => seq![0u8],
        }) + seq![a.negotiated_dlms_version] + (seq![0x5Fu8, 0x1Fu8, 4u8, 0u8] + be_bytes(
            a.negotiated_conformance.0 as nat,
            3,
        )) + two(a.server_max_receive_pdu_size) + two(a.vaa_name),
{
    law_numbers_are_big_endian(q.client_max_receive_pdu_size, 0);
    law_numbers_are_big_endian(a.server_max_receive_pdu_size, 0);
    law_numbers_are_big_endian(a.vaa_name, 0);
}

/// The codes that a read, a write or an invocation comes to.
pub proof fn law_result_codes()
    ensures
        DataAccessResult::Success.as_u8() == 0 && ActionResult::Success.as_u8() == 0,
        DataAccessResult::HardwareFault.as_u8() == 1 && ActionResult::HardwareFault.as_u8() == 1,
        DataAccessResult::TemporaryFailure.as_u8() == 2 && ActionResult::TemporaryFailure.as_u8()
            == 2,
        DataAccessResult::ReadWriteDenied.as_u8() == 3 && ActionResult::ReadWriteDenied.as_u8()
            == 3,
        DataAccessResult::ObjectUndefined.as_u8() == 4 && ActionResult::ObjectUndefined.as_u8()
            == 4,
        DataAccessResult::ObjectClassInconsistent.as_u8() == 9
            && ActionResult::ObjectClassInconsistent.as_u8() == 9,
        DataAccessResult::ObjectUnavailable.as_u8() == 11
            && ActionResult::ObjectUnavailable.as_u8() == 11,
        DataAccessResult::TypeUnmatched.as_u8() == 12 && ActionResult::TypeUnmatched.as_u8() == 12,
        DataAccessResult::ScopeOfAccessViolated.as_u8() == 13
            && ActionResult::ScopeOfAccessViolated.as_u8() == 13,
        DataAccessResult::DataBlockUnavailable.as_u8() == 14
            && ActionResult::DataBlockUnavailable.as_u8() == 14,
        DataAccessResult::LongGetAborted.as_u8() == 15 && ActionResult::LongActionAborted.as_u8()
            == 15,
        DataAccessResult::NoLongGetInProgress.as_u8() == 16
            && ActionResult::NoLongActionInProgress.as_u8() == 16,
        DataAccessResult::LongSetAborted.as_u8() == 17,
        DataAccessResult::NoLongSetInProgress.as_u8() == 18,
        DataAccessResult::DataBlockNumberInvalid.as_u8() == 19,
        DataAccessResult::OtherReason.as_u8() == 250 && ActionResult::OtherReason.as_u8() == 250,
        forall|r: DataAccessResult| #[trigger] r.is_success() == (r is Success),
        forall|r: ActionResult| #[trigger] r.is_success() == (r is Success),
        forall|v: u8| (#[trigger] DataAccessResult::from_u8(v)).as_u8() == v,
        forall|v: u8| (#[trigger] ActionResult::from_u8(v)).as_u8() == v,
        forall|v: u8| v == 0 <==> (#[trigger] DataAccessResult::from_u8(v)) is Success,
        forall|v: u8| v == 0 <==> (#[trigger] ActionResult::from_u8(v)) is Success,
{
}

/// The flags of a conformance block, each a bit of its own; and a requirement is met exactly
/// where all of its flags are set.
pub proof fn law_conformance_flags(c: Conformance, f: Conformance)
    ensures
        Conformance::GENERAL_PROTECTION().0 == 0x40_0000,
        Conformance::GENERAL_BLOCK_TRANSFER().0 == 0x20_0000,
        Conformance::READ().0 == 0x10_0000,
        Conformance::WRITE().0 == 0x08_0000,
        Conformance::UNCONFIRMED_WRITE().0 == 0x04_0000,
        Conformance::DELTA_VALUE_ENCODING().0 == 0x02_0000,
        Conformance::ATTRIBUTE_0_WITH_SET().0 == 0x8000,
        Conformance::PRIORITY_MGMT().0 == 0x4000,
        Conformance::ATTRIBUTE_0_WITH_GET().0 == 0x2000,
        Conformance::BLOCK_TRANSFER_WITH_GET_OR_READ().0 == 0x1000,
        Conformance::BLOCK_TRANSFER_WITH_SET_OR_WRITE().0 == 0x0800,
        Conformance::BLOCK_TRANSFER_WITH_ACTION().0 == 0x0400,
        Conformance::MULTIPLE_REFERENCES().0 == 0x0200,
        Conformance::INFORMATION_REPORT().0 == 0x0100,
        Conformance::DATA_NOTIFICATION().0 == 0x80,
        Conformance::ACCESS().0 == 0x40,
        Conformance::PARAMETERIZED_ACCESS().0 == 0x20,
        Conformance::GET().0 == 0x10,
        Conformance::SET().0 == 0x08,
        Conformance::SELECTIVE_ACCESS().0 == 0x04,
        Conformance::EVENT_NOTIFICATION().0 == 0x02,
        Conformance::ACTION().0 == 0x01,
        Conformance::empty().0 == 0,
        Conformance::CLIENT_DEFAULT().0 == 0x40_1E5D,
        Conformance::SERVER_DEFAULT().0 == 0x40_1E5D,
        c.contains(f) == (c.0 & f.0 == f.0),
        c.negotiate(f).0 == c.0 & f.0,
        forall|r: Result<()>|
            #![trigger call_ensures(Conformance::require, (c, f), r)]
            call_ensures(Conformance::require, (c, f), r) ==> (r is Ok <==> c.0 & f.0 == f.0) && (
            r matches Err(e) ==> e == (Error { kind: ErrorKind::Unsupported, offset: 0 })),
{
}

/// The tag of every message.
pub proof fn law_tag_codes()
    ensures
        ApduTag::InitiateRequest.code() == 0x01 && ApduTag::InitiateResponse.code() == 0x08,
        ApduTag::ReadRequest.code() == 0x05 && ApduTag::ReadResponse.code() == 0x0C,
        ApduTag::WriteRequest.code() == 0x06 && ApduTag::WriteResponse.code() == 0x0D,
        ApduTag::ConfirmedServiceError.code() == 0x0E && ApduTag::DataNotification.code() == 0x0F,
        ApduTag::UnconfirmedWriteRequest.code() == 0x16 && ApduTag::InformationReport.code()
            == 0x18,
        ApduTag::Aarq.code() == 0x60 && ApduTag::Aare.code() == 0x61,
        ApduTag::ReleaseRequest.code() == 0x62 && ApduTag::ReleaseResponse.code() == 0x63,
        ApduTag::GetRequest.code() == 0xC0 && ApduTag::GetResponse.code() == 0xC4,
        ApduTag::SetRequest.code() == 0xC1 && ApduTag::SetResponse.code() == 0xC5,
        ApduTag::EventNotification.code() == 0xC2,
        ApduTag::ActionRequest.code() == 0xC3 && ApduTag::ActionResponse.code() == 0xC7,
        ApduTag::ExceptionResponse.code() == 0xD8,
        ApduTag::AccessRequest.code() == 0xD9 && ApduTag::AccessResponse.code() == 0xDA,
        ApduTag::GeneralGloCiphering.code() == 0xDB && ApduTag::GeneralDedCiphering.code() == 0xDC,
        ApduTag::GeneralCiphering.code() == 0xDD && ApduTag::GeneralSigning.code() == 0xDF,
        forall|t: ApduTag| #[trigger] tag_of(t.code()) == Some(t),
{
    reveal(tag_of);
}

} // verus!
