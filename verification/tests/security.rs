//! Counters, keys, policies and the default cryptography.

use dlms_cosem::codec::ErrorKind;
use dlms_cosem::security::keys::nonce;
use dlms_cosem::security::{
    CryptoProvider, InvocationCounter, Key, KeyRef, KeyRing, KeyUsage, Protector, ReplayWindow,
    RustCryptoProvider, SecurityPolicy, SecuritySuite, SystemTitle, REPLAY_WIDTH_MAX, REPLAY_WINDOW_MAX,
};
use dlms_cosem::xdlms::SecurityControl;

/// The bytes that hexadecimal digits stand for; anything else is skipped.
fn hex(s: &str) -> Vec<u8> {
    let digits: Vec<u8> = s.chars().filter_map(|c| c.to_digit(16)).map(|d| d as u8).collect();
    digits.chunks(2).map(|p| p[0] * 16 + p[1]).collect()
}

fn hex12(s: &str) -> [u8; 12] {
    let mut a = [0u8; 12];
    a.copy_from_slice(&hex(s));
    a
}

#[test]
fn the_first_value_sent_is_one_past_the_stored_one() {
    let mut c = InvocationCounter::new(0);
    assert_eq!(c.next().unwrap(), 1);
    assert_eq!(c.next().unwrap(), 2);
    assert_eq!(c.get(), 2);
}

#[test]
fn exhaustion_refuses_rather_than_wrapping() {
    let mut c = InvocationCounter::new(u32::MAX);
    assert_eq!(c.next().unwrap_err().kind, ErrorKind::Unsupported);
    assert_eq!(c.get(), u32::MAX, "and does not move");
}

#[test]
fn a_strict_window_accepts_only_what_is_higher() {
    let mut w = ReplayWindow::strict();
    assert!(w.accept(5).is_ok(), "the first message has nothing to beat");
    assert!(w.accept(6).is_ok());
    assert_eq!(w.accept(6).unwrap_err().kind, ErrorKind::BadTag, "equal is a replay");
    assert_eq!(w.accept(5).unwrap_err().kind, ErrorKind::BadTag, "lower is a replay");
    assert!(w.accept(7).is_ok());
    assert_eq!(w.highest(), Some(7));
}

#[test]
fn a_widened_window_still_accepts_each_value_exactly_once() {
    let mut w = ReplayWindow::new(16);
    assert!(w.accept(100).is_ok());
    // Everything below arrives late, in a scrambled order, and each is taken once.
    for v in [99u32, 95, 88, 97, 90] {
        assert!(w.accept(v).is_ok(), "{v} has not been seen");
        assert_eq!(w.accept(v).unwrap_err().kind, ErrorKind::BadTag, "{v} twice is a replay");
    }
    // And replaying the value that opened the window is still a replay.
    assert_eq!(w.accept(100).unwrap_err().kind, ErrorKind::BadTag);
}

#[test]
fn a_value_older_than_the_window_is_refused_however_wide_it_is() {
    let mut w = ReplayWindow::new(REPLAY_WINDOW_MAX * 4);
    assert!(w.accept(1000).is_ok());
    assert_eq!(w.accept(1000 - REPLAY_WINDOW_MAX).unwrap_err().kind, ErrorKind::BadTag);
    assert!(w.accept(1000 - REPLAY_WINDOW_MAX + 1).is_ok(), "the oldest value still inside");
}

#[test]
fn a_large_jump_forward_empties_the_window_rather_than_shifting_out_of_range() {
    let mut w = ReplayWindow::new(32);
    assert!(w.accept(1).is_ok());
    assert!(w.accept(u32::MAX).is_ok(), "a jump of four billion must not panic");
    assert_eq!(w.highest(), Some(u32::MAX));
    assert_eq!(w.accept(u32::MAX).unwrap_err().kind, ErrorKind::BadTag);
    assert_eq!(w.accept(1).unwrap_err().kind, ErrorKind::BadTag, "long since out of the window");
}

#[test]
fn checking_does_not_record() {
    // The ordering that keeps a forged counter from locking out the real peer.
    let mut w = ReplayWindow::strict();
    assert!(w.accept(10).is_ok());
    assert!(w.check(11).is_ok());
    assert!(w.check(11).is_ok(), "checking twice is still fine: nothing was recorded");
    assert_eq!(w.highest(), Some(10), "a check must not advance the window");
    assert!(w.accept(11).is_ok());
}

/// Every width the constructor accepts is a width the check honours.
#[test]
fn the_widest_window_accepts_exactly_as_far_back_as_it_claims() {
    let w = ReplayWindow::new(u32::MAX);
    assert_eq!(w.width(), REPLAY_WIDTH_MAX);
    for width in [0u32, 1, 7, REPLAY_WIDTH_MAX] {
        let mut w = ReplayWindow::new(width);
        assert!(w.accept(10_000).is_ok());
        if width > 0 {
            // `10_000` itself is spent, so the furthest value still open is exactly
            // `width` below it.
            assert!(w.accept(10_000 - width).is_ok(), "width {width} refuses its own furthest value");
        }
        assert_eq!(
            w.accept(10_000 - width - 1).unwrap_err().kind,
            ErrorKind::BadTag,
            "width {width} accepts one past its own bound"
        );
    }
}

#[test]
fn a_resumed_window_does_not_reaccept_what_was_stored() {
    let mut w = ReplayWindow::resumed(500, 8);
    assert_eq!(w.accept(500).unwrap_err().kind, ErrorKind::BadTag);
    assert_eq!(w.accept(495).unwrap_err().kind, ErrorKind::BadTag);
    assert!(w.accept(501).is_ok());
}

/// `Key-Id` is an enumeration of two values. The authentication key is not one of
/// them — `identified-key` names the key that deciphers the content, and the
/// authentication key never does that.
#[test]
fn only_the_two_ciphering_keys_have_a_key_id() {
    assert_eq!(KeyUsage::GlobalUnicastEncryption.key_id(), Some(0));
    assert_eq!(KeyUsage::GlobalBroadcastEncryption.key_id(), Some(1));
    assert_eq!(KeyUsage::Authentication.key_id(), None);
    assert_eq!(KeyUsage::KeyEncrypting.key_id(), None);
    assert_eq!(KeyUsage::Dedicated.key_id(), None);
}

#[test]
fn a_nonce_is_the_title_then_the_counter() {
    let st = SystemTitle::new([0x4D, 0x4D, 0x4D, 0x00, 0x00, 0xBC, 0x61, 0x4E]);
    assert_eq!(
        nonce(&st, 0x0000_0001),
        [0x4D, 0x4D, 0x4D, 0x00, 0x00, 0xBC, 0x61, 0x4E, 0x00, 0x00, 0x00, 0x01]
    );
}

#[test]
fn a_system_title_shows_its_manufacturer() {
    let st = SystemTitle::new(*b"MMM\x00\x00\xbcaN");
    assert_eq!(st.manufacturer(), Some("MMM"));
}

#[test]
fn a_secret_does_not_print_itself() {
    let s = Key::new([0xAAu8; 16]);
    assert_eq!(s.to_debug(), "[REDACTED]");
    let ring = KeyRing::new([1; 16], [2; 16]);
    let printed = ring.to_debug();
    assert!(!printed.contains('1'), "no key bytes in a Debug rendering: {printed}");
}

/// Suite 2 is 256-bit AES-GCM, and the ring has to be able to hold the key or the
/// suite is unreachable however completely the provider implements it.
#[test]
fn a_ring_holds_keys_of_both_suite_widths() {
    let ring = KeyRing::new_256([7; 32], [8; 32]);
    assert_eq!(ring.get(KeyUsage::GlobalUnicastEncryption).map(<[u8]>::len), Some(32));
    let ring = KeyRing::new([7; 16], [8; 16]);
    assert_eq!(ring.get(KeyUsage::Authentication).map(<[u8]>::len), Some(16));
    // And a length no suite defines is refused rather than padded.
    assert!(Key::from_slice(&[0u8; 24]).is_err());
    assert!(Key::from_slice(&[0u8; 32]).is_ok());
}

#[test]
fn a_dedicated_key_can_be_dropped_without_dropping_the_ring() {
    let mut ring = KeyRing::new([1; 16], [2; 16]);
    ring.set_dedicated(Key::new([3; 16]));
    assert!(ring.get(KeyUsage::Dedicated).is_some());
    ring.clear_dedicated();
    assert!(ring.get(KeyUsage::Dedicated).is_none());
    assert!(ring.get(KeyUsage::GlobalUnicastEncryption).is_some());
}

/// The broadcast bit chooses *which key* opens a frame, so a receiver must take it
/// from its own configuration and never from the sender.
#[test]
fn the_key_set_is_what_this_end_demands_not_what_the_frame_claims() {
    let unicast = SecurityPolicy::authenticated_encrypted(SecuritySuite::Suite0);
    let broadcast = unicast.with_broadcast(true);

    assert_eq!(unicast.key_usage(), KeyUsage::GlobalUnicastEncryption);
    assert_eq!(broadcast.key_usage(), KeyUsage::GlobalBroadcastEncryption);
    assert!(broadcast.control().broadcast_key());
    assert!(!unicast.control().broadcast_key());

    // Each accepts its own bit and refuses the other's.
    assert!(unicast.check_received(unicast.control()).is_ok());
    assert!(broadcast.check_received(broadcast.control()).is_ok());
    assert_eq!(
        unicast.check_received(broadcast.control()).unwrap_err().kind,
        ErrorKind::UnexpectedMessage,
        "a frame naming the broadcast key set on a unicast association is a key downgrade"
    );
    assert_eq!(
        broadcast.check_received(unicast.control()).unwrap_err().kind,
        ErrorKind::UnexpectedMessage
    );
}

/// The bit is checked ahead of the "no protection demanded" shortcut, because it is
/// not a statement about *how strongly* a frame is protected.
#[test]
fn an_unprotected_policy_still_refuses_a_key_set_it_did_not_ask_for() {
    assert!(SecurityPolicy::NONE().check_received(SecurityControl(0x00)).is_ok());
    assert_eq!(
        SecurityPolicy::NONE().check_received(SecurityControl(0x40)).unwrap_err().kind,
        ErrorKind::UnexpectedMessage
    );
}

/// HLS and the Initiate exchange both run before an association has a key set of its
/// own, so `global()` has to mean the global *unicast* set and clear both switches.
#[test]
fn global_means_the_unicast_key_set() {
    let p =
        SecurityPolicy::authenticated_encrypted(SecuritySuite::Suite2).with_dedicated(true).with_broadcast(true);
    assert_eq!(p.global().key_usage(), KeyUsage::GlobalUnicastEncryption);
    assert_eq!(p.global().suite, SecuritySuite::Suite2, "and changes nothing else");
}

/// AES-128-GCM with a 64-byte plaintext and no additional data, computed by a body that has
/// never heard of DLMS. If this passes, the cipher underneath is right and everything else
/// is framing.
#[test]
fn nist_gcm_test_case_3() {
    let key = hex("feffe9928665731c6d6a8f9467308308");
    let mut buf = hex(
        "d9313225f88406e5a55909c5aff5269a
         86a7a9531534f7da2e4c303d8a318a72
         1c3c0c95956809532fcf0e2449a6b525
         b16aedf5aa0de657ba637b391aafd255",
    );
    let nonce = hex12("cafebabefacedbaddecaf888");
    let provider = RustCryptoProvider::new(KeyRing::default());
    let tag = provider.aead_seal(KeyRef::Raw(&key), SecuritySuite::Suite0, &nonce, &[], &mut buf).unwrap();
    assert_eq!(
        buf,
        hex(
            "42831ec2217774244b7221b784d0d49c
             e3aa212f2c02a4e035c17e2329aca12e
             21d514b25466931c7d8f6a5aac84aa05
             1ba30b396a0aac973d58e091473f5985"
        )
    );
    // The published tag is 4d5c2af327cd64a62cf35abd2ba6fab4; DLMS keeps its
    // leftmost 96 bits, which is what GCM's own truncation rule prescribes.
    assert_eq!(tag, hex12("4d5c2af327cd64a62cf35abd"));
}

/// The same key with additional authenticated data, which is the shape every DLMS APDU
/// uses.
#[test]
fn nist_gcm_test_case_4_exercises_the_additional_data_path() {
    let key = hex("feffe9928665731c6d6a8f9467308308");
    let aad = hex("feedfacedeadbeeffeedfacedeadbeefabaddad2");
    let mut buf = hex(
        "d9313225f88406e5a55909c5aff5269a
         86a7a9531534f7da2e4c303d8a318a72
         1c3c0c95956809532fcf0e2449a6b525
         b16aedf5aa0de657ba637b39",
    );
    let nonce = hex12("cafebabefacedbaddecaf888");
    let provider = RustCryptoProvider::new(KeyRing::default());
    let tag = provider.aead_seal(KeyRef::Raw(&key), SecuritySuite::Suite0, &nonce, &aad, &mut buf).unwrap();
    assert_eq!(tag, hex12("5bc94fbc3221a5db94fae95a"));

    // And the same inputs with an empty plaintext are a GMAC, which is what
    // authentication-only protection and HLS mechanism 5 compute.
    let mut empty: [u8; 0] = [];
    let mac = provider.aead_seal(KeyRef::Raw(&key), SecuritySuite::Suite0, &nonce, &aad, &mut empty).unwrap();
    assert_eq!(mac, hex12("346434fd51d5cd0c5887ec63"));
    assert_eq!(
        provider.gmac(KeyRef::Raw(&key), SecuritySuite::Suite0, &nonce, &[&aad[..]]).unwrap(),
        mac,
        "gmac() must agree with sealing an empty buffer"
    );
}

/// The tag must depend only on the bytes, never on where the caller happened to cut
/// them — that is the whole premise of taking segments.
#[test]
fn a_gmac_is_the_same_however_the_additional_data_is_split() {
    let key = hex("feffe9928665731c6d6a8f9467308308");
    let nonce = hex12("cafebabefacedbaddecaf888");
    let provider = RustCryptoProvider::new(KeyRing::default());
    // Long enough to cross many block boundaries, and a prime length so no split
    // lands where another does.
    let data: Vec<u8> = (0..1021u32).map(|i| (i % 251) as u8).collect();

    let whole = provider.gmac(KeyRef::Raw(&key), SecuritySuite::Suite0, &nonce, &[&data]).unwrap();
    for cut in [0usize, 1, 15, 16, 17, 31, 33, 512, 1020, 1021] {
        let (a, b) = data.split_at(cut);
        let split = provider.gmac(KeyRef::Raw(&key), SecuritySuite::Suite0, &nonce, &[a, b]).unwrap();
        assert_eq!(split, whole, "a cut at {cut} changed the tag");
    }
    // Three segments, the shape authentication-only protection actually uses.
    let (a, rest) = data.split_at(1);
    let (b, c) = rest.split_at(16);
    assert_eq!(provider.gmac(KeyRef::Raw(&key), SecuritySuite::Suite0, &nonce, &[a, b, c]).unwrap(), whole);
    // And an empty segment must not disturb anything.
    assert_eq!(
        provider.gmac(KeyRef::Raw(&key), SecuritySuite::Suite0, &nonce, &[&[], &data, &[]]).unwrap(),
        whole
    );
}

/// The authenticated-only mode authenticates the whole APDU as additional data, so
/// it must work at the sizes an APDU actually reaches.
#[test]
fn authentication_only_protection_has_no_size_ceiling() {
    let provider = RustCryptoProvider::new(KeyRing::new([0x11; 16], [0x22; 16]));
    let policy = SecurityPolicy {
        authenticated: true,
        encrypted: false,
        ..SecurityPolicy::authenticated_encrypted(SecuritySuite::Suite0)
    };
    let protector = Protector::new(provider, policy);
    let title = SystemTitle::new(*b"MMM\0\0\0\0\x01");
    let auth_key = [0x22u8; 16];

    // 2 KiB is an ordinary negotiated PDU size.
    let plain = vec![0xABu8; 2048];
    let mut out = vec![0u8; plain.len() + 12];
    let protected = protector.protect(&title, 1, &auth_key, &plain, &mut out).unwrap();
    assert_eq!(protected.len(), plain.len() + 12);

    let mut buf = protected.to_vec();
    let opened = protector
        .unprotect(policy.control(), &title, 1, &auth_key, &mut buf)
        .expect("what we protected must open");
    assert_eq!(opened, &plain[..]);
}

#[test]
fn seal_and_open_are_inverses_and_a_flipped_bit_is_caught() {
    let provider = RustCryptoProvider::new(KeyRing::new([0x11; 16], [0x22; 16]));
    let nonce = [7u8; 12];
    let aad = [0x30u8, 0x22];
    let mut buf = *b"get-response";
    let tag = provider
        .aead_seal(KeyUsage::GlobalUnicastEncryption.into(), SecuritySuite::Suite0, &nonce, &aad, &mut buf)
        .unwrap();
    assert_ne!(&buf[..], b"get-response");
    let mut copy = buf;
    provider
        .aead_open(
            KeyUsage::GlobalUnicastEncryption.into(),
            SecuritySuite::Suite0,
            &nonce,
            &aad,
            &mut copy,
            &tag,
        )
        .unwrap();
    assert_eq!(&copy[..], b"get-response");

    let mut bad_tag = tag;
    bad_tag[0] ^= 1;
    let mut copy = buf;
    assert_eq!(
        provider
            .aead_open(
                KeyUsage::GlobalUnicastEncryption.into(),
                SecuritySuite::Suite0,
                &nonce,
                &aad,
                &mut copy,
                &bad_tag
            )
            .unwrap_err()
            .kind,
        ErrorKind::BadTag
    );
}

#[test]
fn changing_the_additional_data_invalidates_the_tag() {
    let provider = RustCryptoProvider::new(KeyRing::new([0x11; 16], [0x22; 16]));
    let nonce = [7u8; 12];
    let mut buf = *b"hello";
    let tag = provider
        .aead_seal(KeyUsage::GlobalUnicastEncryption.into(), SecuritySuite::Suite0, &nonce, &[0x30], &mut buf)
        .unwrap();
    let mut copy = buf;
    assert!(provider
        .aead_open(
            KeyUsage::GlobalUnicastEncryption.into(),
            SecuritySuite::Suite0,
            &nonce,
            &[0x31],
            &mut copy,
            &tag
        )
        .is_err());
}

/// Wrapping a 128-bit key with a 128-bit KEK.
#[test]
fn rfc3394_key_wrap() {
    let provider = RustCryptoProvider::new(KeyRing::default());
    let kek = hex("000102030405060708090A0B0C0D0E0F");
    let key = hex("00112233445566778899AABBCCDDEEFF");
    let mut out = [0u8; 24];
    let n = provider.key_wrap(KeyRef::Raw(&kek), &key, &mut out).unwrap();
    assert_eq!(n, 24);
    assert_eq!(out[..], hex("1FA68B0A8112B447AEF34BD8FB5A7B829D3E862371D2CFE5")[..]);
    let mut back = [0u8; 16];
    let n = provider.key_unwrap(KeyRef::Raw(&kek), &out, &mut back).unwrap();
    assert_eq!(n, 16);
    assert_eq!(back[..], key[..]);
}

#[test]
fn a_corrupted_wrapped_key_does_not_unwrap() {
    let provider = RustCryptoProvider::new(KeyRing::default());
    let kek = hex("000102030405060708090A0B0C0D0E0F");
    let mut wrapped = hex("1FA68B0A8112B447AEF34BD8FB5A7B829D3E862371D2CFE5");
    wrapped[3] ^= 0x80;
    let mut back = [0u8; 16];
    assert_eq!(
        provider.key_unwrap(KeyRef::Raw(&kek), &wrapped, &mut back).unwrap_err().kind,
        ErrorKind::BadTag
    );
}

#[test]
fn a_provider_without_entropy_refuses_to_invent_it() {
    let provider = RustCryptoProvider::new(KeyRing::default());
    let mut challenge = [0u8; 16];
    assert_eq!(provider.random(&mut challenge).unwrap_err().kind, ErrorKind::Unsupported);
}

#[test]
fn a_default_provider_holds_no_key() {
    let provider: RustCryptoProvider = RustCryptoProvider::default();
    let mut buf = [0u8; 4];
    let e = provider
        .aead_seal(KeyRef::Usage(KeyUsage::GlobalUnicastEncryption), SecuritySuite::Suite0, &[0; 12], &[], &mut buf)
        .unwrap_err();
    assert_eq!(e.kind, ErrorKind::Unsupported);
    assert_eq!(buf, [0u8; 4]);
}
