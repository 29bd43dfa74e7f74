//! Associations: the requests that open and close one.

use dlms_cosem::acse::{
    authentication_bit, oid, Aare, Aarq, ApplicationContext, AssociationResult, AuthMechanism, Diagnostic,
    ReleaseReason, Rlre, Rlrq, UserDiagnostic,
};
use dlms_cosem::ber::read_tlv;
use dlms_cosem::codec::{Decode, Encode, Reader, SliceWriter};

#[test]
fn the_context_and_mechanism_oids_are_the_dlms_ua_arcs() {
    assert_eq!(oid(1, 1), [0x60, 0x85, 0x74, 0x05, 0x08, 0x01, 0x01]);
    assert_eq!(oid(2, 5), [0x60, 0x85, 0x74, 0x05, 0x08, 0x02, 0x05]);
}

#[test]
fn a_low_level_security_aarq_round_trips() {
    let aarq = Aarq {
        application_context: Some(ApplicationContext::LogicalName),
        calling_ap_title: None,
        sender_acse_requirements: true,
        mechanism_name: Some(AuthMechanism::Low),
        calling_authentication_value: Some(b"12345678"),
        user_information: Some(&[
            0x01, 0x00, 0x00, 0x00, 0x06, 0x5F, 0x1F, 0x04, 0x00, 0x00, 0x7E, 0x1F, 0x04, 0xB0,
        ]),
        ..Default::default()
    };
    let mut buf = [0u8; 128];
    let mut w = SliceWriter::new(&mut buf);
    aarq.encode(&mut w).unwrap();
    let bytes = w.as_slice();
    assert_eq!(bytes[0], 0x60, "AARQ is [APPLICATION 0]");
    assert_eq!(bytes[1] as usize, bytes.len() - 2, "length covers the rest");
    let back = Aarq::from_bytes(bytes).unwrap();
    assert_eq!(back, aarq);
}

#[test]
fn a_ciphered_hls_aarq_carries_both_system_title_and_challenge() {
    let title = [0x4Du8, 0x4D, 0x4D, 0x00, 0x00, 0xBC, 0x61, 0x4E];
    let challenge = [0xAAu8; 16];
    let aarq = Aarq {
        application_context: Some(ApplicationContext::LogicalNameCiphered),
        calling_ap_title: Some(&title),
        sender_acse_requirements: true,
        mechanism_name: Some(AuthMechanism::HighGmac),
        calling_authentication_value: Some(&challenge),
        user_information: Some(&[0x21, 0x30, 0x00, 0x00, 0x00, 0x01, 0xFF]),
        ..Default::default()
    };
    let mut buf = [0u8; 128];
    let mut w = SliceWriter::new(&mut buf);
    aarq.encode(&mut w).unwrap();
    let back = Aarq::from_bytes(w.as_slice()).unwrap();
    assert_eq!(back.calling_ap_title, Some(&title[..]));
    assert_eq!(back.calling_authentication_value, Some(&challenge[..]));
    assert_eq!(back.mechanism_name, Some(AuthMechanism::HighGmac));
    assert!(back.application_context.unwrap().is_ciphered());
}

#[test]
fn an_accepted_aare_round_trips() {
    let aare = Aare {
        application_context: Some(ApplicationContext::LogicalName),
        result: AssociationResult::Accepted,
        diagnostic: Diagnostic::User(UserDiagnostic::Null),
        user_information: Some(&[
            0x08, 0x00, 0x06, 0x5F, 0x1F, 0x04, 0x00, 0x00, 0x7E, 0x1F, 0x04, 0x00, 0x00, 0x07,
        ]),
        ..Default::default()
    };
    let mut buf = [0u8; 128];
    let mut w = SliceWriter::new(&mut buf);
    aare.encode(&mut w).unwrap();
    assert_eq!(w.as_slice()[0], 0x61);
    let back = Aare::from_bytes(w.as_slice()).unwrap();
    assert_eq!(back, aare);
    assert!(back.is_accepted());
}

#[test]
fn a_refusal_keeps_its_diagnostic() {
    let aare = Aare {
        result: AssociationResult::RejectedPermanent,
        diagnostic: Diagnostic::User(UserDiagnostic::AuthenticationFailure),
        ..Default::default()
    };
    let mut buf = [0u8; 64];
    let mut w = SliceWriter::new(&mut buf);
    aare.encode(&mut w).unwrap();
    let back = Aare::from_bytes(w.as_slice()).unwrap();
    assert!(!back.is_accepted());
    assert_eq!(back.diagnostic, Diagnostic::User(UserDiagnostic::AuthenticationFailure));
}

#[test]
fn a_provider_diagnostic_is_not_mistaken_for_a_user_one() {
    let aare = Aare {
        result: AssociationResult::RejectedTransient,
        diagnostic: Diagnostic::Provider(1),
        ..Default::default()
    };
    let mut buf = [0u8; 64];
    let mut w = SliceWriter::new(&mut buf);
    aare.encode(&mut w).unwrap();
    assert_eq!(Aare::from_bytes(w.as_slice()).unwrap().diagnostic, Diagnostic::Provider(1));
}

#[test]
fn release_round_trips() {
    let rlrq = Rlrq { reason: Some(ReleaseReason::Normal), user_information: None };
    let mut buf = [0u8; 32];
    let mut w = SliceWriter::new(&mut buf);
    rlrq.encode(&mut w).unwrap();
    assert_eq!(w.as_slice(), [0x62, 0x03, 0x80, 0x01, 0x00]);
    assert_eq!(Rlrq::from_bytes(w.as_slice()).unwrap(), rlrq);

    let rlre = Rlre { reason: Some(ReleaseReason::Normal), user_information: None };
    let mut w = SliceWriter::new(&mut buf);
    rlre.encode(&mut w).unwrap();
    assert_eq!(w.as_slice(), [0x63, 0x03, 0x80, 0x01, 0x00]);
}

/// The bit string is `[unused-bits, content…]` and `authentication` is the top bit
/// of the *first* content byte. Every stack sends the one-byte form, so reading the
/// last byte works until somebody sends a longer one — and then authentication
/// silently reads as absent.
#[test]
fn the_authentication_bit_is_read_from_the_first_content_byte() {
    // The one-byte form everyone sends.
    let tlv = read_tlv(&mut Reader::new(&[0x8A, 0x02, 0x07, 0x80])).unwrap();
    assert!(authentication_bit(tlv.value));
    // A two-byte content with the same bit set. `.last()` would see 0x00 here.
    let tlv = read_tlv(&mut Reader::new(&[0x8A, 0x03, 0x00, 0x80, 0x00])).unwrap();
    assert!(authentication_bit(tlv.value), "a longer bit string must not lose the bit");
    // And genuinely absent.
    let tlv = read_tlv(&mut Reader::new(&[0x8A, 0x02, 0x07, 0x00])).unwrap();
    assert!(!authentication_bit(tlv.value));
    // A bit string with no content byte at all says nothing.
    let tlv = read_tlv(&mut Reader::new(&[0x8A, 0x01, 0x00])).unwrap();
    assert!(!authentication_bit(tlv.value));
}

#[test]
fn an_unknown_context_arc_is_kept_not_defaulted() {
    let aarq = Aarq { application_context: Some(ApplicationContext::Other(9)), ..Default::default() };
    let mut buf = [0u8; 64];
    let mut w = SliceWriter::new(&mut buf);
    aarq.encode(&mut w).unwrap();
    assert_eq!(
        Aarq::from_bytes(w.as_slice()).unwrap().application_context,
        Some(ApplicationContext::Other(9))
    );
}
