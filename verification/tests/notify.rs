//! Notifications: one end pushes, the other listens.

use dlms_cosem::axdr::{Data, DateTime};
use dlms_cosem::client::{NotificationListener, SingleMeterKeys};
use dlms_cosem::codec::ErrorKind;
use dlms_cosem::security::{
    KeyRing, KeyUsage, RustCryptoProvider, SecurityPolicy, SecuritySuite, SystemTitle,
};
use dlms_cosem::server::{check_body_fits, PushDestination, PushSender};

fn title() -> SystemTitle {
    SystemTitle::new(*b"MTR\0\0\0\0\x07")
}

fn ring() -> KeyRing {
    KeyRing::new([0x11; 16], [0x22; 16])
}

fn sender(policy: SecurityPolicy, counter: u32) -> PushSender<RustCryptoProvider<()>, 256> {
    PushSender::new(RustCryptoProvider::new(ring()), title(), policy, counter)
}

fn listener(policy: SecurityPolicy) -> NotificationListener<RustCryptoProvider<()>, SingleMeterKeys> {
    NotificationListener::new(
        RustCryptoProvider::new(KeyRing::default()),
        SingleMeterKeys::new(title(), ring()),
        policy,
    )
}

fn protected() -> SecurityPolicy {
    SecurityPolicy::authenticated_encrypted(SecuritySuite::Suite0)
}

#[test]
fn what_is_pushed_is_heard() {
    let both = protected();
    let when = DateTime::from_civil(2025, 3, 1, 12, 0, 0, 60);
    for policy in [
        both,
        SecurityPolicy { encrypted: false, ..both },
        SecurityPolicy { authenticated: false, ..both },
    ] {
        let mut sender = sender(policy, 41);
        let mut listener = listener(policy);
        let mut out = [0u8; 256];
        let body = Data::DoubleLongUnsigned(987_654);
        let n = sender.notify(Some(when), &body, &mut out).unwrap();
        assert_eq!(out[0], 0xDB, "a protected push is general-glo-ciphering");
        assert_eq!(out[2..10], *title().as_bytes());
        assert_eq!(sender.invocation_counter(), 42);
        let mut buf = [0u8; 256];
        let heard = listener.handle(&out[..n], &mut buf).unwrap();
        assert_eq!(heard.system_title, Some(title()));
        assert_eq!(heard.invocation_counter, Some(42));
        assert_eq!(heard.captured_at, Some(when));
        assert_eq!(heard.body, body);
        // A recorded frame is worth nothing.
        assert_eq!(listener.handle(&out[..n], &mut buf).unwrap_err().kind, ErrorKind::BadTag);
        // And the next one is heard.
        let n = sender.notify(None, &Data::Null, &mut out).unwrap();
        let heard = listener.handle(&out[..n], &mut buf).unwrap();
        assert_eq!(heard.captured_at, None);
        assert_eq!(heard.body, Data::Null);
        assert_eq!(listener.lookup_mut().replay.highest(), Some(43));
    }
}

#[test]
fn a_plain_push_is_plain_and_counts_itself() {
    let mut sender = sender(SecurityPolicy::NONE(), 0);
    assert_eq!(sender.system_title(), title());
    let mut out = [0u8; 64];
    let n = sender.notify(None, &Data::Unsigned(5), &mut out).unwrap();
    assert_eq!(out[..n], [0x0F, 0x00, 0x00, 0x00, 0x01, 0x00, 0x11, 0x05]);
    let n = sender.notify(None, &Data::Unsigned(5), &mut out).unwrap();
    assert_eq!(out[..n], [0x0F, 0x00, 0x00, 0x00, 0x02, 0x00, 0x11, 0x05]);
    assert_eq!(sender.invocation_counter(), 0, "nothing was protected");
    let mut buf = [0u8; 64];
    let heard = listener(SecurityPolicy::NONE()).handle(&out[..n], &mut buf).unwrap();
    assert_eq!(heard.system_title, None);
    assert_eq!(heard.body, Data::Unsigned(5));
    // A listener that demands protection does not take it.
    assert!(listener(protected()).handle(&out[..n], &mut buf).is_err());
}

#[test]
fn a_meter_that_nobody_knows_is_not_heard() {
    let mut other = PushSender::<_, 256>::new(
        RustCryptoProvider::new(ring()),
        SystemTitle::new(*b"XXX\0\0\0\0\x01"),
        protected(),
        0,
    );
    let mut out = [0u8; 256];
    let n = other.notify(None, &Data::Null, &mut out).unwrap();
    let mut buf = [0u8; 256];
    assert_eq!(listener(protected()).handle(&out[..n], &mut buf).unwrap_err().kind, ErrorKind::Unsupported);
}

#[test]
fn a_push_under_another_key_is_refused() {
    let mut other =
        PushSender::<_, 256>::new(RustCryptoProvider::new(KeyRing::new([9; 16], [0x22; 16])), title(), protected(), 0);
    let mut out = [0u8; 256];
    let n = other.notify(None, &Data::Null, &mut out).unwrap();
    let mut buf = [0u8; 256];
    let mut listener = listener(protected());
    assert_eq!(listener.handle(&out[..n], &mut buf).unwrap_err().kind, ErrorKind::BadTag);
    assert_eq!(listener.lookup_mut().replay.highest(), None, "a forgery spends no counter");
}

#[test]
fn an_exhausted_counter_and_a_small_buffer_stop_a_push() {
    let mut out = [0u8; 256];
    assert_eq!(
        sender(protected(), u32::MAX).notify(None, &Data::Null, &mut out).unwrap_err().kind,
        ErrorKind::Unsupported
    );
    let mut tiny = [0u8; 3];
    assert!(matches!(
        sender(SecurityPolicy::NONE(), 0).notify(None, &Data::Null, &mut tiny).unwrap_err().kind,
        ErrorKind::BufferTooSmall { .. }
    ));
    let long = [0u8; 300];
    assert!(matches!(
        sender(protected(), 0).notify(None, &Data::OctetString(&long), &mut out).unwrap_err().kind,
        ErrorKind::BufferTooSmall { .. }
    ));
}

#[test]
fn a_push_is_never_dedicated() {
    let mut keys = ring();
    keys.set_dedicated(dlms_cosem::security::Key::new([7; 16]));
    let mut sender =
        PushSender::<_, 256>::new(RustCryptoProvider::new(keys), title(), protected().with_dedicated(true), 0);
    let mut out = [0u8; 256];
    let n = sender.notify(None, &Data::Unsigned(1), &mut out).unwrap();
    let mut buf = [0u8; 256];
    assert_eq!(listener(protected()).handle(&out[..n], &mut buf).unwrap().body, Data::Unsigned(1));
}

#[test]
fn a_scheduler_learns_whether_a_body_fits() {
    // Two bytes of body and fifty around it.
    assert!(check_body_fits(&Data::Unsigned(1), 52).is_ok());
    assert_eq!(
        check_body_fits(&Data::Unsigned(1), 51).unwrap_err().kind,
        ErrorKind::BufferTooSmall { needed: 1 }
    );
}

#[test]
fn a_destination_spells_itself() {
    assert_eq!(PushDestination::Wrapper("192.168.0.1:7259").as_str(), "192.168.0.1:7259");
    assert_eq!(PushDestination::Local("local").as_str(), "local");
    assert_eq!(PushDestination::Other("other").as_str(), "other");
}

#[test]
fn a_broadcast_push_takes_the_broadcast_key() {
    let mut keys = ring();
    keys.set(KeyUsage::GlobalBroadcastEncryption, dlms_cosem::security::Key::new([0x77; 16]));
    let policy = protected().with_broadcast(true);
    let mut listener = NotificationListener::new(
        RustCryptoProvider::new(KeyRing::default()),
        SingleMeterKeys::new(title(), keys),
        policy,
    );
    // A unicast push is refused where broadcast is demanded.
    let mut out = [0u8; 256];
    let mut buf = [0u8; 256];
    let n = sender(protected(), 0).notify(None, &Data::Null, &mut out).unwrap();
    assert_eq!(listener.handle(&out[..n], &mut buf).unwrap_err().kind, ErrorKind::UnexpectedMessage);
}
