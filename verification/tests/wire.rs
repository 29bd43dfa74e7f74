//! APDUs: their bytes, and back.

use dlms_cosem::axdr::{Data, DateTime};
use dlms_cosem::codec::{Decode, Encode, ErrorKind, Writer};
use dlms_cosem::fixed::FixedWriter;
use dlms_cosem::obis::Obis;
use dlms_cosem::security::wrap::{protect_apdu, unprotect_apdu, Incoming, Outgoing};
use dlms_cosem::security::{
    KeyRing, Protector, ReplayWindow, RustCryptoProvider, SecurityPolicy, SecuritySuite, SystemTitle,
};
use dlms_cosem::xdlms::{
    AccessRequest, AccessRequestSpecification, AccessResponse, AccessResponseSpecification, ActionRequest,
    ActionResponse, ActionResponseWithOptionalData, ActionResult, Apdu, ApduTag, AttributeDescriptor,
    AttributeDescriptorWithSelection, BlockResult, CipheredService, Conformance, DataAccessResult, DataBlockG,
    DataBlockSA, DataNotification, ExceptionResponse, GeneralGloCiphering, GetDataResult, GetRequest,
    GetResponse, InitiateRequest, InitiateResponse, InvokeId, LongInvokeId, MethodDescriptor, OptionalDateTime,
    Protection,
    ReadRequest, ReadResponse, ReadResult, SecurityControl, SelectiveAccess, ServiceError, SetRequest,
    SetResponse, StateError, UnconfirmedWriteRequest, VariableAccess, WriteRequest, WriteResponse, WriteResult,
};

fn attribute() -> AttributeDescriptor {
    AttributeDescriptor::new(3, Obis::new(1, 0, 1, 8, 0, 255), 2)
}

fn method() -> MethodDescriptor {
    MethodDescriptor::new(70, Obis::new(0, 0, 96, 3, 10, 255), 1)
}

fn selected() -> AttributeDescriptorWithSelection<'static> {
    AttributeDescriptorWithSelection {
        descriptor: attribute(),
        access: Some(SelectiveAccess { selector: 2, parameters: Data::Unsigned(1) }),
    }
}

fn id() -> InvokeId {
    InvokeId(0xC1)
}

fn block() -> DataBlockSA<'static> {
    DataBlockSA { last_block: false, block_number: 2, raw_data: &[1, 2, 3] }
}

/// One of each.
fn apdus() -> Vec<Apdu<'static>> {
    let bare = AttributeDescriptorWithSelection { descriptor: attribute(), access: None };
    vec![
        Apdu::GetRequest(GetRequest::Normal { invoke_id: id(), descriptor: attribute(), access: selected().access }),
        Apdu::GetRequest(GetRequest::Next { invoke_id: id(), block_number: 9 }),
        Apdu::GetRequest(GetRequest::WithList { invoke_id: id(), list: vec![bare, selected()] }),
        Apdu::GetResponse(GetResponse::Normal { invoke_id: id(), result: GetDataResult::Data(Data::Unsigned(4)) }),
        Apdu::GetResponse(GetResponse::WithDataBlock {
            invoke_id: id(),
            block: DataBlockG { last_block: true, block_number: 3, result: BlockResult::RawData(&[9, 8]) },
        }),
        Apdu::GetResponse(GetResponse::WithDataBlock {
            invoke_id: id(),
            block: DataBlockG {
                last_block: true,
                block_number: 3,
                result: BlockResult::Error(DataAccessResult::HardwareFault),
            },
        }),
        Apdu::GetResponse(GetResponse::WithList {
            invoke_id: id(),
            results: vec![
                GetDataResult::Error(DataAccessResult::ObjectUndefined),
                GetDataResult::Data(Data::Boolean(false)),
            ],
        }),
        Apdu::SetRequest(SetRequest::Normal {
            invoke_id: id(),
            descriptor: attribute(),
            access: None,
            value: Data::Long(-3),
        }),
        Apdu::SetRequest(SetRequest::WithFirstDataBlock {
            invoke_id: id(),
            descriptor: attribute(),
            access: selected().access,
            block: block(),
        }),
        Apdu::SetRequest(SetRequest::WithDataBlock { invoke_id: id(), block: block() }),
        Apdu::SetRequest(SetRequest::WithList {
            invoke_id: id(),
            descriptors: vec![bare],
            values: vec![Data::Null],
        }),
        Apdu::SetRequest(SetRequest::WithListAndFirstDataBlock {
            invoke_id: id(),
            descriptors: vec![bare, selected()],
            block: block(),
        }),
        Apdu::SetResponse(SetResponse::Normal { invoke_id: id(), result: DataAccessResult::Success }),
        Apdu::SetResponse(SetResponse::DataBlock { invoke_id: id(), block_number: 5 }),
        Apdu::ActionRequest(ActionRequest::Normal {
            invoke_id: id(),
            descriptor: method(),
            parameters: Some(Data::Integer(0)),
        }),
        Apdu::ActionRequest(ActionRequest::NextPblock { invoke_id: id(), block_number: 6 }),
        Apdu::ActionRequest(ActionRequest::WithFirstPblock { invoke_id: id(), descriptor: method(), block: block() }),
        Apdu::ActionRequest(ActionRequest::WithPblock { invoke_id: id(), block: block() }),
        Apdu::ActionRequest(ActionRequest::WithList {
            invoke_id: id(),
            descriptors: vec![method()],
            parameters: vec![Data::Null],
        }),
        Apdu::ActionResponse(ActionResponse::Normal {
            invoke_id: id(),
            response: ActionResponseWithOptionalData {
                result: ActionResult::Success,
                return_parameters: Some(GetDataResult::Data(Data::Enum(1))),
            },
        }),
        Apdu::ActionResponse(ActionResponse::WithPblock { invoke_id: id(), block: block() }),
        Apdu::ActionResponse(ActionResponse::NextPblock { invoke_id: id(), block_number: 6 }),
        Apdu::ActionResponse(ActionResponse::WithList {
            invoke_id: id(),
            responses: vec![ActionResponseWithOptionalData {
                result: ActionResult::ReadWriteDenied,
                return_parameters: None,
            }],
        }),
        Apdu::AccessRequest(AccessRequest {
            long_invoke_id: LongInvokeId(0x4000_0001),
            date_time: OptionalDateTime(Some(DateTime::from_civil(2025, 1, 1, 0, 0, 0, 0))),
            specification: vec![
                AccessRequestSpecification::Get(attribute()),
                AccessRequestSpecification::Write(attribute()),
                AccessRequestSpecification::Action(method()),
                AccessRequestSpecification::GetWithSelection(selected()),
                AccessRequestSpecification::WriteWithSelection(selected()),
            ],
            data: vec![Data::Null, Data::Unsigned(1), Data::Null, Data::Null, Data::Unsigned(2)],
        }),
        Apdu::AccessResponse(AccessResponse {
            long_invoke_id: LongInvokeId(1),
            date_time: OptionalDateTime(None),
            request_specification: None,
            data: vec![Data::Unsigned(7), Data::Null, Data::Null],
            response_specification: vec![
                AccessResponseSpecification::Get(DataAccessResult::Success),
                AccessResponseSpecification::Write(DataAccessResult::TemporaryFailure),
                AccessResponseSpecification::Action(ActionResult::Success),
            ],
        }),
        Apdu::ReadRequest(ReadRequest {
            specification: vec![
                VariableAccess::VariableName(0x0108),
                VariableAccess::Parameterized { name: 0x0200, selector: 1, parameter: Data::Null },
                VariableAccess::BlockNumber(4),
            ],
        }),
        Apdu::ReadResponse(ReadResponse {
            results: vec![
                ReadResult::Data(Data::Unsigned(1)),
                ReadResult::Error(DataAccessResult::ObjectUndefined),
                ReadResult::Block { last_block: true, block_number: 2, raw_data: &[5] },
            ],
        }),
        Apdu::WriteRequest(WriteRequest {
            specification: vec![VariableAccess::VariableName(8)],
            values: vec![Data::Unsigned(1)],
        }),
        Apdu::UnconfirmedWriteRequest(UnconfirmedWriteRequest {
            specification: vec![VariableAccess::VariableName(8)],
            values: vec![Data::Unsigned(1)],
        }),
        Apdu::WriteResponse(WriteResponse {
            results: vec![WriteResult::Success, WriteResult::Error(DataAccessResult::OtherReason)],
        }),
        Apdu::DataNotification(DataNotification {
            long_invoke_id: LongInvokeId(3),
            date_time: OptionalDateTime(None),
            body: Data::Unsigned(1),
        }),
        Apdu::ExceptionResponse(ExceptionResponse {
            state_error: StateError::ServiceNotAllowed,
            service_error: ServiceError::InvocationCounterError,
            expected_invocation_counter: Some(0x0102_0304),
        }),
    ]
}

#[test]
fn every_apdu_round_trips() {
    for apdu in apdus() {
        let mut bytes = Vec::new();
        apdu.encode(&mut bytes).unwrap();
        assert_eq!(Apdu::from_bytes(&bytes).unwrap(), apdu);
        // Nothing may follow, and nothing may be missing.
        let mut longer = bytes.clone();
        longer.push(0);
        assert!(Apdu::from_bytes(&longer).is_err(), "{apdu:?}");
        assert!(Apdu::from_bytes(&bytes[..bytes.len() - 1]).is_err(), "{apdu:?}");
    }
}

#[test]
fn known_requests_have_their_bytes() {
    let mut w = Vec::new();
    apdus()[0].encode(&mut w).unwrap();
    assert_eq!(w, [0xC0, 0x01, 0xC1, 0x00, 0x03, 1, 0, 1, 8, 0, 255, 0x02, 0x01, 0x02, 0x11, 0x01]);
    let mut w = Vec::new();
    apdus()[1].encode(&mut w).unwrap();
    assert_eq!(w, [0xC0, 0x02, 0xC1, 0, 0, 0, 9]);
    let e = ExceptionResponse {
        state_error: StateError::ServiceNotAllowed,
        service_error: ServiceError::InvocationCounterError,
        expected_invocation_counter: Some(0x0102_0304),
    };
    let mut w = Vec::new();
    Apdu::ExceptionResponse(e).encode(&mut w).unwrap();
    assert_eq!(w, [0xD8, 0x01, 0x06, 1, 2, 3, 4]);
    assert_eq!(Apdu::from_bytes(&[0xAA]).unwrap_err().kind, ErrorKind::InvalidTag(0xAA));
}

#[test]
fn the_initiate_exchange_has_its_bytes() {
    let request = InitiateRequest {
        dedicated_key: None,
        response_allowed: true,
        proposed_quality_of_service: None,
        proposed_dlms_version: 6,
        proposed_conformance: Conformance(0x00_7E1F),
        client_max_receive_pdu_size: 0x04B0,
    };
    let mut w = Vec::new();
    request.encode(&mut w).unwrap();
    assert_eq!(w, [0x00, 0x00, 0x00, 0x06, 0x5F, 0x1F, 0x04, 0x00, 0x00, 0x7E, 0x1F, 0x04, 0xB0]);
    assert_eq!(InitiateRequest::from_bytes(&w).unwrap(), request);
    let response = InitiateResponse {
        negotiated_quality_of_service: None,
        negotiated_dlms_version: 6,
        negotiated_conformance: Conformance(0x00_7E1F),
        server_max_receive_pdu_size: 0x0400,
        vaa_name: 7,
    };
    let mut w = Vec::new();
    response.encode(&mut w).unwrap();
    assert_eq!(w, [0x00, 0x06, 0x5F, 0x1F, 0x04, 0x00, 0x00, 0x7E, 0x1F, 0x04, 0x00, 0x00, 0x07]);
    assert_eq!(InitiateResponse::from_bytes(&w).unwrap(), response);
}

#[test]
fn protected_content_round_trips() {
    let g = GeneralGloCiphering {
        system_title: b"MTR\0\0\0\0\x01",
        ciphered: CipheredService {
            security_control: SecurityControl(0x30),
            invocation_counter: 0x0000_0102,
            payload: &[0xAA; 130],
        },
    };
    let mut w = Vec::new();
    g.encode(&mut w).unwrap();
    assert_eq!(w[..16], [8, 0x4D, 0x54, 0x52, 0, 0, 0, 0, 1, 0x81, 135, 0x30, 0, 0, 1, 2]);
    assert_eq!(GeneralGloCiphering::from_bytes(&w).unwrap(), g);
}

fn protector(policy: SecurityPolicy) -> Protector<RustCryptoProvider<()>> {
    Protector::new(RustCryptoProvider::new(KeyRing::new([0x11; 16], [0x22; 16])), policy)
}

#[test]
fn what_one_end_wraps_the_other_opens_once() {
    let policy = SecurityPolicy::authenticated_encrypted(SecuritySuite::Suite0);
    let title = SystemTitle::new(*b"MTR\0\0\0\0\x01");
    let key = [0x22u8; 16];
    let p = protector(policy);
    let out = Outgoing {
        system_title: title,
        invocation_counter: 5,
        auth_key: Some(&key),
        policy,
        general_allowed: true,
    };
    let inc = Incoming {
        local: None,
        peer: Some(title),
        auth_key: Some(&key),
        policy,
        plain_allowed: &[ApduTag::Aarq],
    };
    let mut window = ReplayWindow::strict();
    for (plain, outer) in [(&[0xC0u8, 1, 2, 3][..], 0xC8), (&[0xD9u8, 9][..], 0xDB)] {
        let mut buf = [0u8; 64];
        let n = protect_apdu(&p, &out, plain, &mut buf).unwrap();
        assert_eq!(buf[0], outer);
        window = ReplayWindow::strict();
        assert_eq!(unprotect_apdu(&p, &inc, &mut window, &buf[..n], 64).unwrap(), plain);
        assert_eq!(window.highest(), Some(5));
        assert_eq!(
            unprotect_apdu(&p, &inc, &mut window, &buf[..n], 64).unwrap_err().kind,
            ErrorKind::Replay
        );
        // A flipped bit is found, and spends nothing.
        let mut fresh = ReplayWindow::strict();
        buf[n - 1] ^= 1;
        assert_eq!(
            unprotect_apdu(&p, &inc, &mut fresh, &buf[..n], 64).unwrap_err().kind,
            ErrorKind::BadTag
        );
        assert_eq!(fresh.highest(), None);
    }
    // Plain, where protection is in force.
    assert_eq!(
        unprotect_apdu(&p, &inc, &mut window, &[0xC0, 1], 64).unwrap_err().kind,
        ErrorKind::UnexpectedMessage
    );
    assert_eq!(unprotect_apdu(&p, &inc, &mut window, &[0x60, 0], 64).unwrap(), [0x60, 0]);
}

#[test]
fn suite_two_takes_the_long_key() {
    let policy = SecurityPolicy::authenticated_encrypted(SecuritySuite::Suite2);
    let p = Protector::new(RustCryptoProvider::new(KeyRing::new_256([0x11; 32], [0x22; 32])), policy);
    let title = SystemTitle::new(*b"MTR\0\0\0\0\x01");
    let key = [0x22u8; 32];
    for policy in [policy, SecurityPolicy { encrypted: false, ..policy }] {
        let mut out = [0u8; 64];
        let sealed = p.protect_as(policy, &title, 1, &key, b"hello", &mut out).unwrap().to_vec();
        assert_eq!(sealed.len(), 17);
        let mut buf = sealed.clone();
        assert_eq!(p.unprotect_as(policy, policy.control(), &title, 1, &key, &mut buf).unwrap(), b"hello");
        let mut buf = sealed;
        assert_eq!(
            p.unprotect_as(policy, policy.control(), &title, 2, &key, &mut buf).unwrap_err().kind,
            ErrorKind::BadTag
        );
    }
}

#[test]
fn a_writer_of_a_fixed_size_takes_all_or_nothing() {
    let mut w = FixedWriter::<8>::new();
    Data::DoubleLongUnsigned(1).encode(&mut w).unwrap();
    assert_eq!(w.as_slice(), [0x06, 0, 0, 0, 1]);
    assert_eq!(w.written(), 5);
    let e = w.write_bytes(&[1, 2, 3, 4, 5]).unwrap_err();
    assert_eq!(e.kind, ErrorKind::BufferTooSmall { needed: 2 });
    assert_eq!(e.offset, 5);
    assert_eq!(w.written(), 5);
    w.write_bytes(&[7, 8, 9]).unwrap();
    assert_eq!(w.into_inner().as_slice(), [0x06, 0, 0, 0, 1, 7, 8, 9]);
}

#[test]
fn a_protected_apdu_decodes_without_a_key() {
    let bytes = [0xC8, 0x0A, 0x30, 0x00, 0x00, 0x00, 0x01, 0xAA, 0xBB, 0xCC, 0xDD, 0xEE];
    let apdu = Apdu::from_bytes(&bytes).unwrap();
    assert!(apdu.is_protected());
    assert_eq!(apdu.tag(), ApduTag::GloGetRequest);
    let mut again = Vec::new();
    apdu.encode(&mut again).unwrap();
    assert_eq!(again, bytes);
    match apdu {
        Apdu::Ciphered { protection, service, body } => {
            assert_eq!(protection, Protection::Global);
            assert_eq!(service, ApduTag::GetRequest);
            assert_eq!(body.security_control.suite(), 0);
            assert!(body.security_control.authenticated());
            assert!(body.security_control.encrypted());
            assert_eq!(body.invocation_counter, 1);
            assert_eq!(body.payload, [0xAA, 0xBB, 0xCC, 0xDD, 0xEE]);
        }
        other => panic!("{other:?}"),
    }
    // A service with no ciphered tag of its own has no such form.
    let none = Apdu::Ciphered {
        protection: Protection::Global,
        service: ApduTag::AccessRequest,
        body: CipheredService { security_control: SecurityControl(0), invocation_counter: 0, payload: &[] },
    };
    assert_eq!(none.encode(&mut Vec::new()).unwrap_err().kind, ErrorKind::InvalidLength);
}

#[test]
fn a_capture_decodes() {
    let refused = Apdu::from_bytes(&[0xC4, 0x01, 0xC1, 0x01, 0x03]).unwrap();
    assert_eq!(
        refused,
        Apdu::GetResponse(GetResponse::Normal {
            invoke_id: id(),
            result: GetDataResult::Error(DataAccessResult::ReadWriteDenied),
        })
    );
    assert_eq!(refused.tag(), ApduTag::GetResponse);
    assert!(!refused.is_protected());
    let value = [0xC4, 0x01, 0xC1, 0x00, 0x06, 0x00, 0xBC, 0x61, 0x4E];
    assert_eq!(
        Apdu::from_bytes(&value).unwrap(),
        Apdu::GetResponse(GetResponse::Normal {
            invoke_id: id(),
            result: GetDataResult::Data(Data::DoubleLongUnsigned(12_345_678)),
        })
    );
    // A failure names a byte.
    let e = Apdu::from_bytes(&[0xC4, 0x01, 0xC1, 0x00, 0x0B]).unwrap_err();
    assert_eq!(e.to_string(), "byte 4: invalid tag 0x0b");
}
