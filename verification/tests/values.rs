//! Values: what decodes, what does not, and why.

use dlms_cosem::axdr::{CompactArray, Data, DataBuf, DateTime, ScaledValue, Unit, MAX_COMPACT_NODES, MAX_DEPTH};
use dlms_cosem::codec::{Decode, Encode, Error, ErrorKind, SliceWriter};
use dlms_cosem::cosem::profile::MAX_COLUMNS;
use dlms_cosem::cosem::{CaptureObject, EntryDescriptor, ObjectRef, ProfileBuffer, RangeDescriptor};
use dlms_cosem::obis::{names, Obis};

fn kind(bytes: &[u8]) -> ErrorKind {
    Data::from_bytes(bytes).unwrap_err().kind
}

fn encoded(d: &Data<'_>) -> Vec<u8> {
    let mut v = Vec::new();
    d.encode(&mut v).unwrap();
    assert_eq!(v.len(), d.encoded_len());
    v
}

#[test]
fn every_plain_value_has_its_bytes() {
    let cases: Vec<(Data<'_>, Vec<u8>)> = vec![
        (Data::Null, vec![0x00]),
        (Data::Boolean(true), vec![0x03, 0x01]),
        (Data::DoubleLong(-2), vec![0x05, 0xFF, 0xFF, 0xFF, 0xFE]),
        (Data::DoubleLongUnsigned(0x0102_0304), vec![0x06, 1, 2, 3, 4]),
        (Data::OctetString(&[7, 8]), vec![0x09, 0x02, 7, 8]),
        (Data::VisibleString(b"ab"), vec![0x0A, 0x02, 0x61, 0x62]),
        (Data::Utf8String("µ".as_bytes()), vec![0x0C, 0x02, 0xC2, 0xB5]),
        (Data::Bcd(0x25), vec![0x0D, 0x25]),
        (Data::Integer(-1), vec![0x0F, 0xFF]),
        (Data::Long(-2), vec![0x10, 0xFF, 0xFE]),
        (Data::Unsigned(200), vec![0x11, 200]),
        (Data::LongUnsigned(0x1234), vec![0x12, 0x12, 0x34]),
        (Data::Long64(-1), vec![0x14, 255, 255, 255, 255, 255, 255, 255, 255]),
        (Data::Long64Unsigned(1), vec![0x15, 0, 0, 0, 0, 0, 0, 0, 1]),
        (Data::Enum(3), vec![0x16, 3]),
        (Data::Float32(1.5f32.to_bits()), vec![0x17, 0x3F, 0xC0, 0, 0]),
        (Data::Float64(1.5f64.to_bits()), vec![0x18, 0x3F, 0xF8, 0, 0, 0, 0, 0, 0]),
        (Data::DeltaInteger(-1), vec![0x1C, 0xFF]),
        (Data::DeltaDoubleLongUnsigned(5), vec![0x21, 0, 0, 0, 5]),
        (Data::DontCare, vec![0xFF]),
    ];
    for (value, bytes) in cases {
        assert_eq!(encoded(&value), bytes);
        assert_eq!(Data::from_bytes(&bytes).unwrap(), value);
        let owned = DataBuf::parse(&bytes).unwrap();
        let mut again = Vec::new();
        owned.encode(&mut again).unwrap();
        assert_eq!(again, bytes);
    }
}

#[test]
fn a_date_time_round_trips_inside_a_value() {
    let when = DateTime::from_civil(2024, 2, 29, 23, 59, 58, -120);
    let bytes = encoded(&Data::DateTime(when));
    assert_eq!(bytes.len(), 13);
    assert_eq!(Data::from_bytes(&bytes).unwrap(), Data::DateTime(when));
}

#[test]
fn what_is_wrong_is_named() {
    assert_eq!(kind(&[]), ErrorKind::Truncated { needed: 1 });
    assert_eq!(kind(&[0x06, 1, 2]), ErrorKind::Truncated { needed: 2 });
    assert_eq!(kind(&[0x07]), ErrorKind::InvalidTag(0x07));
    assert_eq!(kind(&[0x11, 1, 2]), ErrorKind::InvalidLength);
    assert_eq!(kind(&[0x09, 0x80]), ErrorKind::InvalidLength);
    // Structures in structures, one level too many.
    let mut deep = Vec::new();
    for _ in 0..MAX_DEPTH {
        deep.extend([0x02, 0x01]);
    }
    deep.push(0x00);
    assert_eq!(kind(&deep), ErrorKind::DepthExceeded);
    assert!(Data::from_bytes(&deep[2..]).is_ok());
}

#[test]
fn an_error_says_what_and_where() {
    let e = Error::new(ErrorKind::InvalidTag(0x1B), 3);
    assert_eq!(e.to_string(), "byte 3: invalid tag 0x1b");
    assert_eq!(ErrorKind::Truncated { needed: 4 }.to_string(), "truncated, needed 4 more byte(s)");
}

#[test]
fn strings_are_checked_when_they_are_asked_for() {
    assert_eq!(Data::Utf8String("kWh".as_bytes()).as_str(), Some("kWh"));
    assert_eq!(Data::Utf8String(&[0xFF, 0xFE]).as_str(), None);
    assert_eq!(Data::Utf8String(&[0xC2, 0xB5]).as_str(), Some("µ"));
}

#[test]
fn integers_widen_and_never_wrap() {
    assert_eq!(Data::Long64Unsigned(u64::MAX).as_i64(), None);
    assert_eq!(Data::Long64Unsigned(u64::MAX).as_u64(), Some(u64::MAX));
    assert_eq!(Data::Integer(-1).as_u64(), None);
    assert_eq!(Data::Integer(-1).as_i64(), Some(-1));
    assert_eq!(Data::Boolean(true).as_i64(), None);
}

#[test]
fn a_compact_array_expands_into_its_rows() {
    // Two rows of { unsigned, long-unsigned }.
    let desc = [0x02, 0x02, 0x11, 0x12];
    let contents = [1, 0, 2, 3, 0, 4];
    let c = CompactArray::from_parts(&desc, &contents).unwrap();
    assert_eq!(c.row_count().unwrap(), 2);
    let rows = c.to_rows().unwrap();
    assert_eq!(
        rows,
        vec![
            DataBuf::Structure(vec![DataBuf::Unsigned(1), DataBuf::LongUnsigned(2)]),
            DataBuf::Structure(vec![DataBuf::Unsigned(3), DataBuf::LongUnsigned(4)]),
        ]
    );
    assert_eq!(c.for_each_leaf().unwrap().len(), 4);
    // A row that is cut short is not a row.
    assert!(CompactArray::from_parts(&desc, &contents[..5]).unwrap().row_count().is_err());
    assert!(CompactArray::from_parts(&[0x02, 0x02, 0x11, 0x12, 0x00], &[]).is_err());
}

#[test]
fn rescaling_keeps_the_amount_and_goes_back() {
    let v = ScaledValue::new(-12_340, -3, Unit::WATT());
    let coarse = v.rescale(-2).unwrap();
    assert_eq!(coarse, ScaledValue::new(-1_234, -2, Unit::WATT()));
    assert_eq!(coarse.rescale(-3), Some(v));
    assert_eq!(ScaledValue::new(i64::MIN, 0, Unit::WATT()).rescale(0).unwrap().value, i64::MIN);
    assert_eq!(ScaledValue::new(i64::MIN, 0, Unit::WATT()).rescale(-1), None, "would overflow");
    assert_eq!(ScaledValue::new(0, 127, Unit::WATT()).rescale(-128).unwrap().value, 0);
    assert_eq!(ScaledValue::new(922_337_203_685_477_580, 1, Unit::WATT()).rescale(0).unwrap().value, 9_223_372_036_854_775_800);
}

#[test]
fn a_value_prints_without_a_float() {
    assert_eq!(ScaledValue::new(i64::MIN, -19, Unit(200)).to_string(), "-0.9223372036854775808");
    assert_eq!(ScaledValue::new(5, -25, Unit::VOLT()).to_string(), "0.0000000000000000000000005 V");
    assert_eq!(ScaledValue::new(0, 2, Unit::NO_UNIT()).to_string(), "000");
    assert_eq!(Unit(200).to_string(), "unit(200)");
    assert_eq!(Unit::CUBIC_METRE().to_string(), "m³");
}

#[test]
fn a_capture_object_round_trips() {
    let c = CaptureObject::new(3, Obis::new(1, 0, 1, 8, 0, 255), -2, 7);
    let mut buf = [0u8; 32];
    let mut w = SliceWriter::new(&mut buf);
    c.encode(&mut w).unwrap();
    assert_eq!(
        w.as_slice(),
        [0x02, 0x04, 0x12, 0x00, 0x03, 0x09, 0x06, 1, 0, 1, 8, 0, 255, 0x0F, 0xFE, 0x12, 0x00, 0x07]
    );
    let d = Data::from_bytes(w.as_slice()).unwrap();
    assert_eq!(CaptureObject::from_data(&d).unwrap(), c);
    assert_eq!(CaptureObject::from_data(&Data::Null).unwrap_err().kind, ErrorKind::InvalidValue);
}

#[test]
fn a_selection_needs_room_for_itself() {
    let when = DateTime::from_civil(2025, 1, 1, 0, 0, 0, 0);
    let range = RangeDescriptor::by_clock(when, when);
    let mut buf = [0u8; 50];
    assert!(range.to_selective_access(&mut buf).is_ok());
    let mut buf = [0u8; 49];
    assert!(matches!(range.to_selective_access(&mut buf).unwrap_err().kind, ErrorKind::BufferTooSmall { .. }));
    let mut buf = [0u8; 18];
    assert!(EntryDescriptor::entries(1, 0).to_selective_access(&mut buf).is_ok());
    let mut buf = [0u8; 17];
    assert!(matches!(
        EntryDescriptor::entries(1, 0).to_selective_access(&mut buf).unwrap_err().kind,
        ErrorKind::BufferTooSmall { .. }
    ));
}

#[test]
fn a_profile_is_an_array_of_rows_with_not_too_many_columns() {
    assert_eq!(ProfileBuffer::new(&Data::Null).unwrap_err().kind, ErrorKind::InvalidValue);
    let empty = Data::from_bytes(&[0x01, 0x00]).unwrap();
    let b = ProfileBuffer::new(&empty).unwrap();
    assert!(b.is_empty());
    assert!(b.for_each_cell(MAX_COLUMNS).unwrap().is_empty());
    assert_eq!(b.for_each_cell(MAX_COLUMNS + 1).unwrap_err().kind, ErrorKind::Unsupported);
    let not_rows = Data::from_bytes(&[0x01, 0x01, 0x11, 0x05]).unwrap();
    let b = ProfileBuffer::new(&not_rows).unwrap();
    assert_eq!(b.for_each_cell(1).unwrap_err().kind, ErrorKind::InvalidValue);
    assert!(b.raw_rows()[0].is_err());
}

#[test]
fn an_object_is_described_by_its_class() {
    let o = ObjectRef::new(8, 0, names::CLOCK());
    assert_eq!(o.describe().unwrap().name, "Clock");
    assert!(ObjectRef::new(9999, 0, names::CLOCK()).describe().is_none());
}

#[test]
fn a_description_that_multiplies_is_refused_before_it_is_walked() {
    // array 7425 of array 285 of array 257 of null-data
    let desc = [0x01, 0x1D, 0x01, 0x01, 0x01, 0x1D, 0x01, 0x01, 0x01, 0x00];
    let c = CompactArray::from_parts(&desc, &[0x00]).unwrap();
    assert_eq!(c.row_len().unwrap(), 7425 * 285 * 257);
    assert_eq!(c.row_count().unwrap_err().kind, ErrorKind::WorkExceeded);
    assert_eq!(c.for_each_leaf().unwrap_err().kind, ErrorKind::WorkExceeded);
    assert_eq!(c.to_rows().unwrap_err().kind, ErrorKind::WorkExceeded);
    // Where there is nothing to walk, there is no work.
    assert_eq!(CompactArray::from_parts(&desc, &[]).unwrap().row_count().unwrap(), 0);
    // The longest array of plain values is not too much.
    let contents = vec![0u8; 65_535];
    let c = CompactArray::from_parts(&[0x01, 0xFF, 0xFF, 0x11], &contents).unwrap();
    assert_eq!(c.row_count().unwrap(), 1);
    assert_eq!(MAX_COMPACT_NODES, 65_536);
}

#[test]
fn the_ways_to_expand_a_compact_array_agree() {
    // Three rows of { array 2 of unsigned, boolean }.
    let desc = [0x02, 0x02, 0x01, 0x00, 0x02, 0x11, 0x03];
    let contents = [1, 2, 0, 3, 4, 1, 5, 6, 0];
    let c = CompactArray::from_parts(&desc, &contents).unwrap();
    let n = c.row_len().unwrap();
    assert_eq!(n, 3);
    let rows = c.to_rows().unwrap();
    assert_eq!(c.row_count().unwrap(), rows.len());
    let leaves = c.for_each_leaf().unwrap();
    assert_eq!(leaves.len(), rows.len() * n);
    for (k, leaf) in leaves.iter().enumerate() {
        assert_eq!((leaf.row, leaf.column), (k / n, k % n));
    }
}

#[test]
fn a_decoded_value_takes_no_more_bytes_when_it_is_encoded_again() {
    // A length in a longer form than it needs.
    let bytes = [0x09, 0x82, 0x00, 0x02, 0xAA, 0xBB];
    let d = Data::from_bytes(&bytes).unwrap();
    assert_eq!(encoded(&d), [0x09, 0x02, 0xAA, 0xBB]);
    assert_eq!(Data::from_bytes(&encoded(&d)).unwrap(), d);
}

#[test]
fn an_owned_value_can_be_copied() {
    let t = DataBuf::Structure(vec![
        DataBuf::Array(vec![DataBuf::Unsigned(1), DataBuf::Null]),
        DataBuf::OctetString(vec![7, 8]),
        DataBuf::BitString { bits: 3, bytes: vec![0xA0] },
    ]);
    assert_eq!(t.clone(), t);
}

#[test]
fn a_buffer_that_is_too_small_holds_what_came_before_the_write_that_failed() {
    let mut buf = [0xEEu8; 6];
    let mut w = SliceWriter::new(&mut buf);
    let e = Data::OctetString(&[1, 2, 3, 4, 5, 6]).encode(&mut w).unwrap_err();
    assert_eq!(e.kind, ErrorKind::BufferTooSmall { needed: 2 });
    assert_eq!(e.offset, 2);
    assert_eq!(w.as_slice(), [0x09, 0x06]);
    w.truncate(1).unwrap();
    assert_eq!(w.finish(), [0x09]);
    assert_eq!(buf, [0x09, 0x06, 0xEE, 0xEE, 0xEE, 0xEE]);
}
