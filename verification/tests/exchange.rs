//! A client and a server, talking to each other.

use dlms_cosem::acse::{Aare, AuthMechanism, Diagnostic, Referencing, UserDiagnostic};
use dlms_cosem::axdr::Data;
use dlms_cosem::client::{
    AccessItem, AssociationStep, BlockCollector, ClientConfig, ClientSession, Response, SessionState,
};
use dlms_cosem::codec::{Decode, Encode, ErrorKind, Writer};
use dlms_cosem::cosem::classes::Register;
use dlms_cosem::cosem::sn::resolve;
use dlms_cosem::cosem::{AttributeAccess, MethodAccess, ShortName, ShortNameTarget};
use dlms_cosem::obis::Obis;
use dlms_cosem::security::{
    FixedRandom, KeyRing, RustCryptoProvider, Secret, SecurityPolicy, SecuritySuite, SystemTitle,
};
use dlms_cosem::server::{
    method_answer, read_answer, write_answer, AuditEvent, ObjectStore, Server, ServerConfig, ServerState,
    StoreResult,
};
use dlms_cosem::xdlms::{
    AccessResponseSpecification, ActionResult, Apdu, AttributeDescriptor, AttributeDescriptorWithSelection,
    Conformance, DataAccessResult, ExceptionResponse, GetDataResult, MethodDescriptor, ReadResult,
    SelectiveAccess, ServiceError, StateError, VariableAccess, WriteResult,
};

type Crypto = RustCryptoProvider<FixedRandom>;
type Client = ClientSession<Crypto, 1024>;
type Meter = Server<Objects, Crypto, 1024>;

fn energy() -> Obis {
    Obis::new(1, 0, 1, 8, 0, 255)
}

fn secret_register() -> Obis {
    Obis::new(1, 0, 2, 8, 0, 255)
}

fn profile() -> Obis {
    Obis::new(1, 0, 99, 1, 0, 255)
}

fn breaker() -> Obis {
    Obis::new(0, 0, 96, 3, 10, 255)
}

/// A meter with a register, one that nobody may read, a long value and a breaker.
struct Objects {
    energy: u32,
    closed: bool,
    long: Vec<u8>,
    events: Vec<AuditEvent>,
}

impl Objects {
    fn new() -> Self {
        Objects { energy: 1234, closed: true, long: vec![0x5A; 600], events: Vec::new() }
    }
}

impl ObjectStore for Objects {
    fn get_attribute<W: Writer>(
        &self,
        class_id: u16,
        logical_name: Obis,
        attribute_id: i8,
        selective_access: Option<SelectiveAccess<'_>>,
        w: &mut W,
    ) -> StoreResult<()> {
        let written = if class_id == 3 && logical_name == energy() && attribute_id == 2 {
            Data::DoubleLongUnsigned(self.energy).encode(w)
        } else if class_id == 3 && logical_name == energy() && attribute_id == 3 {
            // A value that was promised and not written.
            return Ok(());
        } else if class_id == 7 && logical_name == profile() && attribute_id == 2 {
            match selective_access {
                Some(a) => Data::Unsigned(a.selector).encode(w),
                None => Data::OctetString(&self.long).encode(w),
            }
        } else {
            return Err(DataAccessResult::ObjectUndefined);
        };
        written.map_err(|_| DataAccessResult::OtherReason)
    }

    fn set_attribute(
        &mut self,
        class_id: u16,
        logical_name: Obis,
        attribute_id: i8,
        _selective_access: Option<SelectiveAccess<'_>>,
        value: Data<'_>,
    ) -> StoreResult<()> {
        if class_id == 3 && logical_name == energy() && attribute_id == 2 {
            match value.as_u64() {
                Some(v) => {
                    self.energy = v as u32;
                    Ok(())
                }
                None => Err(DataAccessResult::TypeUnmatched),
            }
        } else if class_id == 7 && logical_name == profile() && attribute_id == 2 {
            match value.as_bytes() {
                Some(b) => {
                    self.long = b.to_vec();
                    Ok(())
                }
                None => Err(DataAccessResult::TypeUnmatched),
            }
        } else {
            Err(DataAccessResult::ObjectUndefined)
        }
    }

    fn invoke_method<W: Writer>(
        &mut self,
        class_id: u16,
        logical_name: Obis,
        method_id: i8,
        parameters: Option<Data<'_>>,
        w: &mut W,
    ) -> core::result::Result<bool, ActionResult> {
        if class_id == 3 && logical_name == energy() && method_id == 1 {
            self.energy = 0;
            return Ok(false);
        }
        if class_id != 70 || logical_name != breaker() {
            return Err(ActionResult::ObjectUndefined);
        }
        match method_id {
            // Opens, and answers with what it was given.
            1 => {
                self.closed = false;
                match parameters {
                    Some(p) => match p.encode(w) {
                        Ok(()) => Ok(true),
                        Err(_) => Err(ActionResult::OtherReason),
                    },
                    None => Ok(false),
                }
            }
            // Answers with something long.
            2 => match Data::OctetString(&self.long).encode(w) {
                Ok(()) => Ok(true),
                Err(_) => Err(ActionResult::OtherReason),
            },
            // Claims an answer and gives none.
            3 => Ok(true),
            _ => Err(ActionResult::ObjectUndefined),
        }
    }

    fn attribute_access(&self, _class_id: u16, logical_name: Obis, attribute_id: i8) -> AttributeAccess {
        if logical_name == secret_register() {
            AttributeAccess::empty()
        } else if attribute_id == 4 {
            AttributeAccess::READ()
        } else {
            AttributeAccess::READ().union(AttributeAccess::WRITE())
        }
    }

    fn method_access(&self, _class_id: u16, _logical_name: Obis, method_id: i8) -> MethodAccess {
        if method_id == 9 {
            MethodAccess::empty()
        } else {
            MethodAccess::ACCESS()
        }
    }

    fn resolve_short_name(&self, name: u16) -> Option<ShortNameTarget> {
        let objects = [
            ShortName::new(0x0100, 3, energy(), 3).with_methods(0x28, 1),
            ShortName::new(0x0200, 7, profile(), 8),
            ShortName::new(0x0300, 70, breaker(), 4).with_methods(0x20, 3),
        ];
        resolve(&objects, name)
    }

    fn audit(&mut self, event: AuditEvent) {
        self.events.push(event);
    }
}

fn crypto() -> Crypto {
    let mut ring = KeyRing::new([0x11; 16], [0x22; 16]);
    ring.set_dedicated(dlms_cosem::security::Key::new([0x33; 16]));
    RustCryptoProvider::with_rng(ring, FixedRandom(0xC3))
}

fn client_title() -> SystemTitle {
    SystemTitle::new(*b"CLI\0\0\0\0\x01")
}

fn server_title() -> SystemTitle {
    SystemTitle::new(*b"MTR\0\0\0\0\x02")
}

/// Everything a server or a client can offer.
fn everything() -> Conformance {
    Conformance(
        Conformance::CLIENT_DEFAULT().0
            | Conformance::READ().0
            | Conformance::WRITE().0
            | Conformance::UNCONFIRMED_WRITE().0
            | Conformance::PARAMETERIZED_ACCESS().0,
    )
}

fn plain_pair() -> (Client, Meter) {
    let client = ClientConfig { conformance: everything(), ..ClientConfig::default() };
    let server = ServerConfig { conformance: everything(), ..ServerConfig::default() };
    (Client::new(client, crypto()), Meter::new(server, Objects::new(), crypto()))
}

fn ciphered_pair(policy: SecurityPolicy) -> (Client, Meter) {
    let client = ClientConfig {
        system_title: Some(client_title()),
        mechanism: AuthMechanism::HighGmac,
        security: policy,
        conformance: everything(),
        ..ClientConfig::default()
    };
    let server = ServerConfig {
        system_title: Some(server_title()),
        mechanism: AuthMechanism::HighGmac,
        security: policy.global(),
        conformance: everything(),
        ..ServerConfig::default()
    };
    (Client::new(client, crypto()), Meter::new(server, Objects::new(), crypto()))
}

/// Carry one request to the server and bring its answer back.
fn carry(meter: &mut Meter, request: &[u8]) -> Vec<u8> {
    let mut reply = [0u8; 1100];
    let n = meter.handle(request, &mut reply).expect("the server answers");
    reply[..n].to_vec()
}

fn associate(client: &mut Client, meter: &mut Meter) {
    let mut out = [0u8; 512];
    let n = client.associate_request(&mut out).unwrap();
    let reply = carry(meter, &out[..n]);
    match client.handle_associate_response(&reply).unwrap() {
        AssociationStep::Established => {}
        AssociationStep::HlsReplyRequired => {
            assert_eq!(meter.state(), ServerState::AwaitingHlsReply);
            let n = client.hls_reply_request(&mut out).unwrap();
            let reply = carry(meter, &out[..n]);
            assert_eq!(client.handle_hls_reply_response(&reply).unwrap(), AssociationStep::Established);
        }
        other => panic!("the server refused: {other:?}"),
    }
    assert_eq!(client.state(), SessionState::Associated);
    assert_eq!(meter.state(), ServerState::Associated);
}

fn policies() -> Vec<SecurityPolicy> {
    let both = SecurityPolicy::authenticated_encrypted(SecuritySuite::Suite0);
    vec![
        both,
        SecurityPolicy { encrypted: false, ..both },
        SecurityPolicy { authenticated: false, ..both },
        both.with_dedicated(true),
    ]
}

#[test]
fn a_plain_association_reads_a_register() {
    let (mut client, mut meter) = plain_pair();
    associate(&mut client, &mut meter);
    let mut out = [0u8; 256];
    let n = client.get::<Register>(energy(), 2, &mut out).unwrap();
    assert_eq!(out[..n], [0xC0, 0x01, out[2], 0x00, 0x03, 1, 0, 1, 8, 0, 255, 0x02, 0x00]);
    let reply = carry(&mut meter, &out[..n]);
    assert_eq!(reply, [0xC4, 0x01, out[2], 0x00, 0x06, 0x00, 0x00, 0x04, 0xD2]);
    let mut buf = [0u8; 256];
    assert_eq!(client.handle_response(&reply, &mut buf).unwrap(), Response::Data(Data::DoubleLongUnsigned(1234)));
}

#[test]
fn protected_associations_read_and_write() {
    for policy in policies() {
        let (mut client, mut meter) = ciphered_pair(policy);
        associate(&mut client, &mut meter);
        assert_eq!(client.server_system_title(), Some(server_title()));
        let mut out = [0u8; 256];
        let mut buf = [0u8; 256];
        let d = AttributeDescriptor::new(3, energy(), 2);

        let n = client.set_request(d, None, Data::DoubleLongUnsigned(77), &mut out).unwrap();
        assert_ne!(out[0], 0xC1, "a SET does not go out in the clear");
        let reply = carry(&mut meter, &out[..n]);
        assert_ne!(reply[0], 0xC5);
        assert_eq!(client.handle_response(&reply, &mut buf).unwrap(), Response::Done);

        let n = client.get_request(d, None, &mut out).unwrap();
        let reply = carry(&mut meter, &out[..n]);
        assert_eq!(
            client.handle_response(&reply, &mut buf).unwrap(),
            Response::Data(Data::DoubleLongUnsigned(77))
        );
        assert_eq!(client.peer_invocation_counter(), Some(meter.invocation_counter()));
        assert_eq!(meter.peer_invocation_counter(), Some(client.invocation_counter()));
    }
}

#[test]
fn a_replayed_request_is_answered_with_the_counter_that_is_expected() {
    let (mut client, mut meter) = ciphered_pair(policies()[0]);
    associate(&mut client, &mut meter);
    let mut out = [0u8; 256];
    let n = client.get::<Register>(energy(), 2, &mut out).unwrap();
    let first = carry(&mut meter, &out[..n]);
    let again = carry(&mut meter, &out[..n]);
    assert_ne!(first, again);
    match Apdu::from_bytes(&again).unwrap() {
        Apdu::ExceptionResponse(e) => {
            assert_eq!(e.state_error, StateError::ServiceNotAllowed);
            assert_eq!(e.service_error, ServiceError::InvocationCounterError);
            assert_eq!(e.expected_invocation_counter, Some(client.invocation_counter() + 1));
        }
        other => panic!("not an exception: {other:?}"),
    }
    // And the client does not take the same answer twice.
    let mut buf = [0u8; 256];
    assert!(client.handle_response(&first, &mut buf).is_ok());
    let n = client.get::<Register>(energy(), 2, &mut out).unwrap();
    let _ = carry(&mut meter, &out[..n]);
    assert_eq!(client.handle_response(&first, &mut buf).unwrap_err().kind, ErrorKind::Replay);
}

#[test]
fn a_plain_request_does_not_get_into_a_protected_association() {
    let (mut client, mut meter) = ciphered_pair(policies()[0]);
    associate(&mut client, &mut meter);
    let (mut other, mut elsewhere) = plain_pair();
    associate(&mut other, &mut elsewhere);
    let mut out = [0u8; 256];
    let n = other.get::<Register>(energy(), 2, &mut out).unwrap();
    let reply = carry(&mut meter, &out[..n]);
    let mut buf = [0u8; 256];
    assert_eq!(
        client.handle_response(&reply, &mut buf).unwrap(),
        Response::Exception(ExceptionResponse {
            state_error: StateError::ServiceNotAllowed,
            service_error: ServiceError::DecipheringError,
            expected_invocation_counter: None,
        })
    );
}

#[test]
fn a_request_before_any_association_is_refused() {
    let (mut client, mut meter) = plain_pair();
    let (mut other, mut elsewhere) = plain_pair();
    associate(&mut other, &mut elsewhere);
    let mut out = [0u8; 256];
    let n = other.get::<Register>(energy(), 2, &mut out).unwrap();
    let reply = carry(&mut meter, &out[..n]);
    assert_eq!(reply, [0xD8, 0x01, 0x01]);
    assert!(meter.store().events.is_empty());
    assert_eq!(client.get::<Register>(energy(), 2, &mut out).unwrap_err().kind, ErrorKind::UnexpectedMessage);
    // An APDU that means nothing, and one that is longer than the server takes.
    assert_eq!(carry(&mut meter, &[0xFF, 0x00]), [0xD8, 0x02, 0x02]);
    assert_eq!(carry(&mut meter, &[]), [0xD8, 0x02, 0x02]);
    assert_eq!(carry(&mut meter, &vec![0xC0; 1025]), [0xD8, 0x01, 0x04]);
}

#[test]
fn a_password_opens_an_association_and_a_wrong_one_does_not() {
    for (given, right) in [(&b"12345678"[..], true), (&b"12345679"[..], false)] {
        let client = ClientConfig {
            mechanism: AuthMechanism::Low,
            password: Some(Secret::new(given).unwrap()),
            ..ClientConfig::default()
        };
        let server = ServerConfig {
            mechanism: AuthMechanism::Low,
            password: Some(Secret::new(b"12345678").unwrap()),
            ..ServerConfig::default()
        };
        let mut client = Client::new(client, crypto());
        let mut meter = Meter::new(server, Objects::new(), crypto());
        let mut out = [0u8; 256];
        let n = client.associate_request(&mut out).unwrap();
        let reply = carry(&mut meter, &out[..n]);
        let step = client.handle_associate_response(&reply).unwrap();
        if right {
            assert_eq!(step, AssociationStep::Established);
            assert_eq!(
                meter.store().events,
                [AuditEvent::Associated { mechanism: AuthMechanism::Low, ciphered: false }]
            );
        } else {
            assert!(matches!(
                step,
                AssociationStep::Rejected {
                    diagnostic: Diagnostic::User(UserDiagnostic::AuthenticationFailure),
                    ..
                }
            ));
            assert_eq!(
                meter.store().events,
                [AuditEvent::AssociationRefused { diagnostic: UserDiagnostic::AuthenticationFailure }]
            );
            assert_eq!(meter.state(), ServerState::Closed);
        }
    }
}

#[test]
fn a_refusal_names_the_context_that_was_asked_for() {
    let (_, mut meter) = ciphered_pair(policies()[0]);
    let (mut client, _) = plain_pair();
    let mut out = [0u8; 256];
    let n = client.associate_request(&mut out).unwrap();
    let reply = carry(&mut meter, &out[..n]);
    let aare = Aare::from_bytes(&reply).unwrap();
    assert!(!aare.is_accepted());
    assert_eq!(aare.diagnostic, Diagnostic::User(UserDiagnostic::ApplicationContextNameNotSupported));
    assert_eq!(aare.application_context, Some(dlms_cosem::acse::ApplicationContext::LogicalName));
}

#[test]
fn a_client_with_another_key_does_not_get_in() {
    let (_, mut meter) = ciphered_pair(policies()[0]);
    let config = ClientConfig {
        system_title: Some(client_title()),
        mechanism: AuthMechanism::HighGmac,
        security: policies()[0],
        ..ClientConfig::default()
    };
    let ring = KeyRing::new([0x44; 16], [0x22; 16]);
    let mut client = Client::new(config, RustCryptoProvider::with_rng(ring, FixedRandom(1)));
    let mut out = [0u8; 256];
    let n = client.associate_request(&mut out).unwrap();
    let reply = carry(&mut meter, &out[..n]);
    assert!(matches!(
        client.handle_associate_response(&reply).unwrap(),
        AssociationStep::Rejected { diagnostic: Diagnostic::User(UserDiagnostic::AuthenticationFailure), .. }
    ));
}

#[test]
fn rights_come_before_values() {
    let (mut client, mut meter) = plain_pair();
    associate(&mut client, &mut meter);
    let mut out = [0u8; 256];
    let mut buf = [0u8; 256];
    let d = AttributeDescriptor::new(3, secret_register(), 2);
    let n = client.get_request(d, None, &mut out).unwrap();
    let reply = carry(&mut meter, &out[..n]);
    assert_eq!(
        client.handle_response(&reply, &mut buf).unwrap(),
        Response::DataError(DataAccessResult::ReadWriteDenied)
    );
    let n = client.set_request(d, None, Data::Unsigned(1), &mut out).unwrap();
    let reply = carry(&mut meter, &out[..n]);
    assert_eq!(
        client.handle_response(&reply, &mut buf).unwrap(),
        Response::DataError(DataAccessResult::ReadWriteDenied)
    );
    let m = MethodDescriptor::new(70, breaker(), 9);
    let n = client.action_request(m, None, &mut out).unwrap();
    let reply = carry(&mut meter, &out[..n]);
    assert_eq!(
        client.handle_response(&reply, &mut buf).unwrap(),
        Response::ActionResult { result: ActionResult::ReadWriteDenied, value: None }
    );
    assert!(meter.store().closed);
    // Every refusal is on record, with what the client was told.
    assert_eq!(
        meter.store().events[1..],
        [
            AuditEvent::AttributeRead {
                class_id: 3,
                logical_name: secret_register(),
                attribute_id: 2,
                outcome: DataAccessResult::ReadWriteDenied
            },
            AuditEvent::AttributeWritten {
                class_id: 3,
                logical_name: secret_register(),
                attribute_id: 2,
                outcome: DataAccessResult::ReadWriteDenied
            },
            AuditEvent::MethodInvoked {
                class_id: 70,
                logical_name: breaker(),
                method_id: 9,
                outcome: ActionResult::ReadWriteDenied
            },
        ]
    );
}

#[test]
fn a_store_that_promises_and_writes_nothing_is_told_apart() {
    let (mut client, mut meter) = plain_pair();
    associate(&mut client, &mut meter);
    let mut out = [0u8; 256];
    let mut buf = [0u8; 256];
    let n = client.get::<Register>(energy(), 3, &mut out).unwrap();
    let reply = carry(&mut meter, &out[..n]);
    assert_eq!(
        client.handle_response(&reply, &mut buf).unwrap(),
        Response::DataError(DataAccessResult::OtherReason)
    );
    let n = client.action_request(MethodDescriptor::new(70, breaker(), 3), None, &mut out).unwrap();
    let reply = carry(&mut meter, &out[..n]);
    assert_eq!(
        client.handle_response(&reply, &mut buf).unwrap(),
        Response::ActionResult { result: ActionResult::OtherReason, value: None }
    );
}

#[test]
fn a_method_returns_what_it_returns() {
    let (mut client, mut meter) = plain_pair();
    associate(&mut client, &mut meter);
    let mut out = [0u8; 256];
    let mut buf = [0u8; 256];
    let m = MethodDescriptor::new(70, breaker(), 1);
    let n = client.action_request(m, Some(Data::Integer(-4)), &mut out).unwrap();
    let reply = carry(&mut meter, &out[..n]);
    assert_eq!(
        client.handle_response(&reply, &mut buf).unwrap(),
        Response::ActionResult { result: ActionResult::Success, value: Some(Data::Integer(-4)) }
    );
    assert!(!meter.store().closed);
    let n = client.action_request(m, None, &mut out).unwrap();
    let reply = carry(&mut meter, &out[..n]);
    assert_eq!(
        client.handle_response(&reply, &mut buf).unwrap(),
        Response::ActionResult { result: ActionResult::Success, value: None }
    );
}

#[test]
fn a_list_keeps_every_answer_in_its_place() {
    let (mut client, mut meter) = plain_pair();
    associate(&mut client, &mut meter);
    let mut out = [0u8; 512];
    let mut buf = [0u8; 512];
    let item = |name, attribute| AttributeDescriptorWithSelection {
        descriptor: AttributeDescriptor::new(3, name, attribute),
        access: None,
    };
    let items = [item(energy(), 2), item(secret_register(), 2), item(energy(), 2)];
    let n = client.get_request_with_list(&items, &mut out).unwrap();
    let reply = carry(&mut meter, &out[..n]);
    assert_eq!(
        client.handle_response(&reply, &mut buf).unwrap(),
        Response::DataList(vec![
            GetDataResult::Data(Data::DoubleLongUnsigned(1234)),
            GetDataResult::Error(DataAccessResult::ReadWriteDenied),
            GetDataResult::Data(Data::DoubleLongUnsigned(1234)),
        ])
    );

    let values = [Data::DoubleLongUnsigned(5), Data::Unsigned(6), Data::Boolean(true)];
    let n = client.set_request_with_list(&items, &values, &mut out).unwrap();
    let reply = carry(&mut meter, &out[..n]);
    assert_eq!(
        client.handle_response(&reply, &mut buf).unwrap(),
        Response::ResultList(vec![
            DataAccessResult::Success,
            DataAccessResult::ReadWriteDenied,
            DataAccessResult::TypeUnmatched,
        ])
    );
    assert_eq!(meter.store().energy, 5);

    let methods = [
        MethodDescriptor::new(70, breaker(), 1),
        MethodDescriptor::new(70, breaker(), 9),
        MethodDescriptor::new(3, energy(), 1),
    ];
    let parameters = [Some(Data::Unsigned(8)), None, None];
    let n = client.action_request_with_list(&methods, &parameters, &mut out).unwrap();
    let reply = carry(&mut meter, &out[..n]);
    match client.handle_response(&reply, &mut buf).unwrap() {
        Response::ActionResults(r) => {
            assert_eq!(r.len(), 3);
            assert_eq!(r[0].result, ActionResult::Success);
            assert_eq!(r[0].return_parameters, Some(GetDataResult::Data(Data::Unsigned(8))));
            assert_eq!(r[1].result, ActionResult::ReadWriteDenied);
            assert_eq!(r[1].return_parameters, None);
            assert_eq!(r[2].result, ActionResult::Success);
        }
        other => panic!("not a list of outcomes: {other:?}"),
    }
    assert_eq!(meter.store().energy, 0);
}

/// A client that receives no more than so many bytes.
fn small_pair(max_pdu_size: u16) -> (Client, Meter) {
    let client = ClientConfig { conformance: everything(), max_pdu_size, ..ClientConfig::default() };
    let server = ServerConfig { conformance: everything(), ..ServerConfig::default() };
    (Client::new(client, crypto()), Meter::new(server, Objects::new(), crypto()))
}

#[test]
fn a_long_value_arrives_in_blocks_and_is_put_together() {
    let (mut client, mut meter) = small_pair(100);
    associate(&mut client, &mut meter);
    assert_eq!(meter.client_max_pdu_size(), 100);
    let mut out = [0u8; 256];
    let mut buf = [0u8; 256];
    let mut gathered = [0u8; 1024];
    let mut collector = BlockCollector::new(&mut gathered);
    let d = AttributeDescriptor::new(7, profile(), 2);
    let n = client.get_request(d, None, &mut out).unwrap();
    let mut reply = carry(&mut meter, &out[..n]);
    let mut blocks = 0;
    loop {
        assert!(reply.len() <= 100, "the client said how much it receives");
        let (last, number) = match client.handle_response(&reply, &mut buf).unwrap() {
            Response::Block { last, number, data } => {
                collector.push(number, data).unwrap();
                (last, number)
            }
            other => panic!("not a block: {other:?}"),
        };
        blocks += 1;
        if last {
            break;
        }
        assert!(meter.is_block_transfer_in_progress());
        let n = client.get_next_block_request(number, &mut out).unwrap();
        reply = carry(&mut meter, &out[..n]);
    }
    assert!(blocks > 5);
    assert!(!meter.is_block_transfer_in_progress());
    assert_eq!(collector.value().unwrap(), Data::OctetString(&[0x5A; 600]));
}

#[test]
fn a_wrong_block_number_ends_a_transfer() {
    let (mut client, mut meter) = small_pair(100);
    associate(&mut client, &mut meter);
    let mut out = [0u8; 256];
    let mut buf = [0u8; 256];
    let d = AttributeDescriptor::new(7, profile(), 2);
    let n = client.get_request(d, None, &mut out).unwrap();
    let reply = carry(&mut meter, &out[..n]);
    assert!(matches!(client.handle_response(&reply, &mut buf).unwrap(), Response::Block { number: 1, .. }));
    let n = client.get_next_block_request(7, &mut out).unwrap();
    let reply = carry(&mut meter, &out[..n]);
    assert_eq!(
        client.handle_response(&reply, &mut buf).unwrap(),
        Response::DataError(DataAccessResult::DataBlockNumberInvalid)
    );
    assert!(!meter.is_block_transfer_in_progress());
    let n = client.get_request(d, None, &mut out).unwrap();
    let _ = carry(&mut meter, &out[..n]);
}

#[test]
fn a_long_value_is_written_in_blocks() {
    let (mut client, mut meter) = plain_pair();
    let (mut small, mut tight) = {
        let client = ClientConfig { conformance: everything(), ..ClientConfig::default() };
        let server = ServerConfig { conformance: everything(), max_pdu_size: 120, ..ServerConfig::default() };
        (Client::new(client, crypto()), Meter::new(server, Objects::new(), crypto()))
    };
    associate(&mut client, &mut meter);
    associate(&mut small, &mut tight);
    let mut value = vec![0x09, 0x82, 0x01, 0xF4];
    value.extend((0..500u32).map(|i| i as u8));
    let d = AttributeDescriptor::new(7, profile(), 2);
    let mut sender = small.set_transfer(d, None, &value).unwrap();
    let expected = sender.blocks();
    let mut out = [0u8; 256];
    let mut buf = [0u8; 256];
    let mut sent = 0;
    while !sender.is_done() {
        let n = small.next_block_request(&mut sender, &mut out).unwrap();
        assert!(n <= 120, "the server said how much it takes");
        sent += 1;
        let reply = carry(&mut tight, &out[..n]);
        let response = small.handle_response(&reply, &mut buf).unwrap();
        if sender.is_done() {
            assert_eq!(response, Response::Done);
        } else {
            assert_eq!(response, Response::BlockAccepted { number: sent as u32 });
        }
    }
    assert_eq!(sent, expected);
    assert_eq!(tight.store().long, value[4..]);
}

#[test]
fn a_long_parameter_and_a_long_answer_go_in_blocks() {
    let client = ClientConfig { conformance: everything(), max_pdu_size: 150, ..ClientConfig::default() };
    let server = ServerConfig { conformance: everything(), max_pdu_size: 120, ..ServerConfig::default() };
    let mut client = Client::new(client, crypto());
    let mut meter = Meter::new(server, Objects::new(), crypto());
    associate(&mut client, &mut meter);
    let mut parameter = vec![0x09, 0x82, 0x01, 0x2C];
    parameter.extend(vec![7u8; 300]);
    let mut sender = client.action_transfer(MethodDescriptor::new(70, breaker(), 1), &parameter).unwrap();
    let mut out = [0u8; 256];
    let mut buf = [0u8; 256];
    let mut gathered = [0u8; 1024];
    let mut collector = BlockCollector::new(&mut gathered);
    let mut reply = Vec::new();
    while !sender.is_done() {
        let n = client.next_block_request(&mut sender, &mut out).unwrap();
        reply = carry(&mut meter, &out[..n]);
        if !sender.is_done() {
            assert!(matches!(client.handle_response(&reply, &mut buf).unwrap(), Response::BlockAccepted { .. }));
        }
    }
    loop {
        let (last, number) = match client.handle_response(&reply, &mut buf).unwrap() {
            Response::Block { last, number, data } => {
                collector.push(number, data).unwrap();
                (last, number)
            }
            other => panic!("not a block: {other:?}"),
        };
        if last {
            break;
        }
        let n = client.action_next_block_request(number, &mut out).unwrap();
        reply = carry(&mut meter, &out[..n]);
    }
    assert!(!meter.store().closed);
    assert_eq!(collector.value().unwrap(), Data::OctetString(&[7; 300]));
}

#[test]
fn reads_writes_and_invocations_go_in_one_exchange() {
    for (mut client, mut meter) in [plain_pair(), ciphered_pair(policies()[0])] {
        associate(&mut client, &mut meter);
        let mut out = [0u8; 512];
        let mut buf = [0u8; 512];
        let items = [
            AccessItem::Get { descriptor: AttributeDescriptor::new(3, energy(), 2), access: None },
            AccessItem::Write {
                descriptor: AttributeDescriptor::new(3, energy(), 2),
                access: None,
                value: Data::DoubleLongUnsigned(9),
            },
            AccessItem::Get { descriptor: AttributeDescriptor::new(3, secret_register(), 2), access: None },
            AccessItem::Action {
                descriptor: MethodDescriptor::new(70, breaker(), 1),
                parameters: Some(Data::Unsigned(3)),
            },
            AccessItem::Get { descriptor: AttributeDescriptor::new(3, energy(), 2), access: None },
        ];
        let n = client.access_request(&items, &mut out).unwrap();
        let reply = carry(&mut meter, &out[..n]);
        match client.handle_response(&reply, &mut buf).unwrap() {
            Response::Access { data, results } => {
                assert_eq!(
                    data,
                    [
                        Data::DoubleLongUnsigned(1234),
                        Data::Null,
                        Data::Null,
                        Data::Unsigned(3),
                        Data::DoubleLongUnsigned(9),
                    ]
                );
                assert_eq!(
                    results,
                    [
                        AccessResponseSpecification::Get(DataAccessResult::Success),
                        AccessResponseSpecification::Write(DataAccessResult::Success),
                        AccessResponseSpecification::Get(DataAccessResult::ReadWriteDenied),
                        AccessResponseSpecification::Action(ActionResult::Success),
                        AccessResponseSpecification::Get(DataAccessResult::Success),
                    ]
                );
            }
            other => panic!("not an access response: {other:?}"),
        }
    }
}

fn short_pair(max_pdu_size: u16) -> (Client, Meter) {
    let client = ClientConfig {
        conformance: everything(),
        referencing: Referencing::ShortName,
        max_pdu_size,
        ..ClientConfig::default()
    };
    let server = ServerConfig {
        conformance: everything(),
        referencing: Referencing::ShortName,
        ..ServerConfig::default()
    };
    (Client::new(client, crypto()), Meter::new(server, Objects::new(), crypto()))
}

#[test]
fn short_names_read_write_and_invoke() {
    let (mut client, mut meter) = short_pair(1024);
    associate(&mut client, &mut meter);
    let mut out = [0u8; 256];
    let mut buf = [0u8; 256];
    let items = [
        VariableAccess::VariableName(0x0108),
        VariableAccess::VariableName(0x0999),
        VariableAccess::Parameterized { name: 0x0320, selector: 0, parameter: Data::Unsigned(4) },
    ];
    let n = client.read_request(&items, &mut out).unwrap();
    let reply = carry(&mut meter, &out[..n]);
    assert_eq!(
        client.handle_response(&reply, &mut buf).unwrap(),
        Response::ReadResults(vec![
            ReadResult::Data(Data::DoubleLongUnsigned(1234)),
            ReadResult::Error(DataAccessResult::ObjectUndefined),
            ReadResult::Data(Data::Unsigned(4)),
        ])
    );
    assert!(!meter.store().closed);

    let items = [VariableAccess::VariableName(0x0108), VariableAccess::VariableName(0x0128)];
    let values = [Data::DoubleLongUnsigned(44), Data::Integer(0)];
    let n = client.write_request(&items, &values, &mut out).unwrap();
    let reply = carry(&mut meter, &out[..n]);
    assert_eq!(
        client.handle_response(&reply, &mut buf).unwrap(),
        Response::WriteResults(vec![WriteResult::Success, WriteResult::Success])
    );
    assert_eq!(meter.store().energy, 0, "written, then reset by the method");

    let n = client.unconfirmed_write_request(&items[..1], &values[..1], &mut out).unwrap();
    assert!(carry(&mut meter, &out[..n]).is_empty(), "nobody asked for an answer");
    assert_eq!(meter.store().energy, 44);
}

#[test]
fn a_long_short_name_read_goes_in_blocks() {
    let (mut client, mut meter) = short_pair(100);
    associate(&mut client, &mut meter);
    let mut out = [0u8; 256];
    let mut buf = [0u8; 256];
    let mut gathered = [0u8; 1024];
    let mut collector = BlockCollector::new(&mut gathered);
    let n = client.read_request(&[VariableAccess::VariableName(0x0208)], &mut out).unwrap();
    let mut reply = carry(&mut meter, &out[..n]);
    loop {
        let (last, number) = match client.handle_response(&reply, &mut buf).unwrap() {
            Response::ReadResults(r) => match r[0] {
                ReadResult::Block { last_block, block_number, raw_data } => {
                    collector.push(u32::from(block_number), raw_data).unwrap();
                    (last_block, block_number)
                }
                other => panic!("not a block: {other:?}"),
            },
            Response::Block { last, number, data } => {
                collector.push(number, data).unwrap();
                (last, number as u16)
            }
            other => panic!("not a block: {other:?}"),
        };
        if last {
            break;
        }
        let n = client.read_next_block_request(number, &mut out).unwrap();
        reply = carry(&mut meter, &out[..n]);
    }
    assert_eq!(collector.value().unwrap(), Data::OctetString(&[0x5A; 600]));
}

#[test]
fn selective_access_reaches_the_store() {
    let (mut client, mut meter) = plain_pair();
    associate(&mut client, &mut meter);
    let mut out = [0u8; 256];
    let mut buf = [0u8; 256];
    let access = SelectiveAccess { selector: 2, parameters: Data::Null };
    let n = client.get_request(AttributeDescriptor::new(7, profile(), 2), Some(access), &mut out).unwrap();
    let reply = carry(&mut meter, &out[..n]);
    assert_eq!(client.handle_response(&reply, &mut buf).unwrap(), Response::Data(Data::Unsigned(2)));
}

#[test]
fn a_release_ends_the_association_and_keeps_the_counters() {
    let (mut client, mut meter) = ciphered_pair(policies()[0]);
    associate(&mut client, &mut meter);
    let mut out = [0u8; 256];
    let mut buf = [0u8; 256];
    let n = client.release_request(&mut out).unwrap();
    let (sent, seen) = (meter.invocation_counter(), meter.peer_invocation_counter());
    let reply = carry(&mut meter, &out[..n]);
    assert_eq!(client.handle_response(&reply, &mut buf).unwrap(), Response::Released);
    assert_eq!(meter.state(), ServerState::Closed);
    assert_eq!(meter.invocation_counter(), sent);
    assert_eq!(meter.peer_invocation_counter(), seen);
    meter.reset();
    assert_eq!(meter.state(), ServerState::Idle);
    assert_eq!(meter.invocation_counter(), sent);
    assert_eq!(meter.peer_invocation_counter(), seen);
    assert_eq!(meter.replay_owner(), Some(client_title()));
}

#[test]
fn a_service_that_was_not_agreed_to_is_refused() {
    let client = ClientConfig { conformance: everything(), ..ClientConfig::default() };
    let server = ServerConfig { conformance: Conformance::GET(), ..ServerConfig::default() };
    let mut client = Client::new(client, crypto());
    let mut meter = Meter::new(server, Objects::new(), crypto());
    associate(&mut client, &mut meter);
    let mut out = [0u8; 256];
    let d = AttributeDescriptor::new(3, energy(), 2);
    assert_eq!(
        client.set_request(d, None, Data::Unsigned(1), &mut out).unwrap_err().kind,
        ErrorKind::Unsupported
    );
    // A client that asks anyway is told so.
    let (mut other, mut elsewhere) = plain_pair();
    associate(&mut other, &mut elsewhere);
    let n = other.set_request(d, None, Data::Unsigned(1), &mut out).unwrap();
    assert_eq!(carry(&mut meter, &out[..n]), [0xD8, 0x02, 0x02]);
    assert_eq!(meter.store().energy, 1234);
}

fn reads(meter: &Meter) -> Vec<DataAccessResult> {
    meter
        .store()
        .events
        .iter()
        .filter_map(|e| match e {
            AuditEvent::AttributeRead { outcome, .. } => Some(*outcome),
            _ => None,
        })
        .collect()
}

#[test]
fn what_is_recorded_of_an_empty_value_depends_on_the_service() {
    // Alone: the success that was claimed, then what the client is told.
    let (mut client, mut meter) = plain_pair();
    associate(&mut client, &mut meter);
    let mut out = [0u8; 256];
    let n = client.get::<Register>(energy(), 3, &mut out).unwrap();
    carry(&mut meter, &out[..n]);
    assert_eq!(reads(&meter), [DataAccessResult::Success, DataAccessResult::OtherReason]);
    // In a list: what the client is told.
    let (mut client, mut meter) = plain_pair();
    associate(&mut client, &mut meter);
    let item = AttributeDescriptorWithSelection {
        descriptor: AttributeDescriptor::new(3, energy(), 3),
        access: None,
    };
    let n = client.get_request_with_list(&[item, item], &mut out).unwrap();
    carry(&mut meter, &out[..n]);
    assert_eq!(reads(&meter), [DataAccessResult::OtherReason, DataAccessResult::OtherReason]);
    // By short name: the success that was claimed.
    let (mut client, mut meter) = short_pair(1024);
    associate(&mut client, &mut meter);
    let n = client.read_request(&[VariableAccess::VariableName(0x0110)], &mut out).unwrap();
    let mut buf = [0u8; 256];
    let reply = carry(&mut meter, &out[..n]);
    assert_eq!(
        client.handle_response(&reply, &mut buf).unwrap(),
        Response::ReadResults(vec![ReadResult::Error(DataAccessResult::OtherReason)])
    );
    assert_eq!(reads(&meter), [DataAccessResult::Success]);
}

#[test]
fn a_list_that_overflows_records_only_what_it_read() {
    // Room for one result of forty-three bytes, and one byte.
    let config = ServerConfig { conformance: everything(), ..ServerConfig::default() };
    let mut objects = Objects::new();
    objects.long = vec![0x5A; 40];
    let mut meter: Server<Objects, Crypto, 44> = Server::new(config, objects, crypto());
    let client = ClientConfig { conformance: everything(), ..ClientConfig::default() };
    let mut client = Client::new(client, crypto());
    let mut out = [0u8; 256];
    let mut reply = [0u8; 256];
    let n = client.associate_request(&mut out).unwrap();
    let n = meter.handle(&out[..n], &mut reply).unwrap();
    client.handle_associate_response(&reply[..n]).unwrap();
    let good = AttributeDescriptorWithSelection {
        descriptor: AttributeDescriptor::new(7, profile(), 2),
        access: None,
    };
    let bad = AttributeDescriptorWithSelection {
        descriptor: AttributeDescriptor::new(3, Obis::new(9, 9, 9, 9, 9, 9), 2),
        access: None,
    };
    let n = client.get_request_with_list(&[good, bad], &mut out).unwrap();
    let e = meter.handle(&out[..n], &mut reply).unwrap_err();
    assert_eq!(e.kind, ErrorKind::BufferTooSmall { needed: 1 });
    assert_eq!(e.offset, 44);
    let noted = meter
        .store()
        .events
        .iter()
        .filter(|e| matches!(e, AuditEvent::AttributeRead { .. }))
        .count();
    assert_eq!(noted, 1, "the one that found no room was not recorded");
}

#[test]
fn a_reset_is_recorded_and_forgets_the_dedicated_key() {
    let policy = SecurityPolicy::authenticated_encrypted(SecuritySuite::Suite0).with_dedicated(true);
    let (mut client, mut meter) = ciphered_pair(policy);
    associate(&mut client, &mut meter);
    let counter = meter.invocation_counter();
    let peer = meter.peer_invocation_counter();
    meter.reset();
    assert_eq!(meter.state(), ServerState::Idle);
    assert!(!meter.is_block_transfer_in_progress());
    assert_eq!(meter.invocation_counter(), counter);
    assert_eq!(meter.peer_invocation_counter(), peer);
    assert_eq!(meter.replay_owner(), Some(client_title()));
    assert_eq!(meter.store().events.last(), Some(&AuditEvent::Released));
    assert_eq!(meter.store().events.iter().filter(|e| **e == AuditEvent::Released).count(), 1);
}

#[test]
fn gmac_without_a_title_is_refused_before_anything_is_drawn() {
    let config = ClientConfig { mechanism: AuthMechanism::HighGmac, ..ClientConfig::default() };
    let mut c: ClientSession<Crypto, 1024> =
        ClientSession::new(config, RustCryptoProvider::with_rng(KeyRing::default(), FixedRandom(7)));
    let mut out = [0u8; 256];
    let e = c.associate_request(&mut out).unwrap_err();
    assert_eq!(e.kind, ErrorKind::UnexpectedMessage);
    assert_eq!(e.offset, 0);
    assert_eq!(out, [0u8; 256]);
    assert_eq!(c.state(), SessionState::Idle);
}

#[test]
fn a_provider_without_entropy_gives_its_own_error() {
    let config = ClientConfig {
        mechanism: AuthMechanism::HighGmac,
        system_title: Some(client_title()),
        ..ClientConfig::default()
    };
    let mut c: ClientSession<RustCryptoProvider<()>, 1024> =
        ClientSession::new(config, RustCryptoProvider::new(KeyRing::default()));
    let mut out = [0u8; 256];
    assert_eq!(c.associate_request(&mut out).unwrap_err().kind, ErrorKind::Unsupported);
}

#[test]
fn a_transfer_takes_as_many_calls_as_it_has_blocks() {
    let (mut client, mut meter) = small_pair(64);
    associate(&mut client, &mut meter);
    for value in [vec![], vec![0x55u8; 200]] {
        let mut sender = client
            .set_transfer(AttributeDescriptor::new(7, profile(), 2), None, &value)
            .unwrap();
        let blocks = sender.blocks();
        let mut out = [0u8; 256];
        let mut carried = Vec::new();
        let mut ids = Vec::new();
        let mut calls = 0;
        while !sender.is_done() {
            let n = client.next_block_request(&mut sender, &mut out).unwrap();
            calls += 1;
            let (id, block) = match Apdu::from_bytes(&out[..n]).unwrap() {
                Apdu::SetRequest(dlms_cosem::xdlms::SetRequest::WithFirstDataBlock { invoke_id, block, .. })
                | Apdu::SetRequest(dlms_cosem::xdlms::SetRequest::WithDataBlock { invoke_id, block }) => {
                    (invoke_id, block)
                }
                other => panic!("{other:?}"),
            };
            assert_eq!(block.block_number as usize, calls);
            assert_eq!(block.last_block, calls == blocks);
            carried.extend_from_slice(block.raw_data);
            ids.push(id);
        }
        assert_eq!(calls, blocks);
        assert_eq!(carried, value);
        assert!(ids.iter().all(|i| *i == ids[0]));
        assert_eq!(
            client.next_block_request(&mut sender, &mut out).unwrap_err().kind,
            ErrorKind::UnexpectedMessage
        );
    }
}

#[test]
fn what_a_client_is_told_follows_from_the_rights_and_the_answer() {
    let none = AttributeAccess::empty();
    let both = AttributeAccess::READ().union(AttributeAccess::WRITE());
    assert_eq!(read_answer(none, vec![1], Ok(())), Err(DataAccessResult::ReadWriteDenied));
    assert_eq!(read_answer(both, vec![1], Ok(())), Ok(vec![1]));
    assert_eq!(read_answer(both, vec![], Ok(())), Err(DataAccessResult::OtherReason));
    assert_eq!(
        read_answer(both, vec![1], Err(DataAccessResult::HardwareFault)),
        Err(DataAccessResult::HardwareFault)
    );
    assert_eq!(write_answer(none, Ok(())), DataAccessResult::ReadWriteDenied);
    assert_eq!(write_answer(both, Ok(())), DataAccessResult::Success);
    assert_eq!(write_answer(both, Err(DataAccessResult::TypeUnmatched)), DataAccessResult::TypeUnmatched);
    let may = MethodAccess::ACCESS();
    assert_eq!(method_answer(MethodAccess::empty(), vec![1], Ok(true)), Err(ActionResult::ReadWriteDenied));
    assert_eq!(method_answer(may, vec![1], Ok(true)), Ok(Some(vec![1])));
    assert_eq!(method_answer(may, vec![], Ok(true)), Err(ActionResult::OtherReason));
    assert_eq!(method_answer(may, vec![1], Ok(false)), Ok(None));
    assert_eq!(
        method_answer(may, vec![], Err(ActionResult::TemporaryFailure)),
        Err(ActionResult::TemporaryFailure)
    );
}

#[test]
fn high_level_security_without_a_title_is_refused() {
    for mechanism in [AuthMechanism::HighMd5, AuthMechanism::HighSha1, AuthMechanism::HighGmac] {
        let config = ClientConfig { mechanism, ..ClientConfig::default() };
        let mut c: ClientSession<Crypto, 1024> =
            ClientSession::new(config, RustCryptoProvider::with_rng(KeyRing::default(), FixedRandom(7)));
        let mut out = [0u8; 256];
        assert_eq!(c.associate_request(&mut out).unwrap_err().kind, ErrorKind::UnexpectedMessage);
        assert_eq!(out, [0u8; 256]);
        assert_eq!(c.state(), SessionState::Idle);
    }
}

#[test]
fn a_configuration_and_a_response_can_be_copied() {
    let config = ClientConfig { client_sap: 0x30, ..ClientConfig::default() };
    assert_eq!(config.clone().client_sap, 0x30);
    let config = ServerConfig { max_pdu_size: 77, ..ServerConfig::default() };
    assert_eq!(config.clone().max_pdu_size, 77);
    let r = Response::DataList(vec![GetDataResult::Data(Data::Null)]);
    assert_eq!(r.clone(), r);
}
