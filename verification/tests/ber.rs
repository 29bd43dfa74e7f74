//! Tags, lengths and values.

use dlms_cosem::ber::{read_tlv, write_constructed, write_tlv, Octets};
use dlms_cosem::codec::{ErrorKind, Reader, SliceWriter};

#[test]
fn short_and_long_forms() {
    let mut buf = [0u8; 300];
    let mut w = SliceWriter::new(&mut buf);
    write_tlv(&mut w, 0x04, &[1, 2, 3]).unwrap();
    assert_eq!(w.as_slice(), [0x04, 0x03, 1, 2, 3]);

    let body = [0xAAu8; 200];
    let mut w = SliceWriter::new(&mut buf);
    write_tlv(&mut w, 0x04, &body).unwrap();
    assert_eq!(&w.as_slice()[..3], [0x04, 0x81, 200]);
    let tlv = read_tlv(&mut Reader::new(w.as_slice())).unwrap();
    assert_eq!(tlv.value.len(), 200);
}

#[test]
fn indefinite_length_is_refused() {
    assert_eq!(
        read_tlv(&mut Reader::new(&[0x30, 0x80, 0x00, 0x00])).unwrap_err().kind,
        ErrorKind::InvalidLength
    );
}

#[test]
fn multi_byte_tags_are_refused() {
    assert!(matches!(
        read_tlv(&mut Reader::new(&[0x1F, 0x81, 0x01, 0x00])).unwrap_err().kind,
        ErrorKind::InvalidTag(0x1F)
    ));
}

#[test]
fn context_tags_are_recognised() {
    let tlv = read_tlv(&mut Reader::new(&[0xA1, 0x02, 0x06, 0x00])).unwrap();
    assert_eq!(tlv.context_number(), Some(1));
    assert!(tlv.is_constructed());
    let tlv = read_tlv(&mut Reader::new(&[0x8A, 0x02, 0x07, 0x80])).unwrap();
    assert_eq!(tlv.context_number(), Some(10));
    assert!(!tlv.is_constructed());
}

#[test]
fn constructed_writing_back_patches_the_length() {
    let mut buf = [0u8; 32];
    let mut w = SliceWriter::new(&mut buf);
    let body = (Octets { tag: 0x80, value: &[1] }, Octets { tag: 0x81, value: &[2, 3] });
    write_constructed(&mut w, 0x60, &body).unwrap();
    assert_eq!(w.as_slice(), [0x60, 0x07, 0x80, 0x01, 0x01, 0x81, 0x02, 0x02, 0x03]);
}

#[test]
fn a_truncated_value_is_truncated_not_invalid() {
    let e = read_tlv(&mut Reader::new(&[0x04, 0x05, 1, 2])).unwrap_err();
    assert!(e.is_truncated());
}
