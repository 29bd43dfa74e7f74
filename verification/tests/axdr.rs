//! A-XDR values, dates and units.

use dlms_cosem::axdr::{
    BitStr, ClockStatus, Data, Date, DateTime, ScaledValue, Time, Unit, DEVIATION_NOT_SPECIFIED,
};
use dlms_cosem::codec::Decode;

/// Equality is about the elements, not about where the bytes were found.
#[test]
fn two_identical_sequences_are_equal_wherever_they_were_decoded() {
    let bare = [0x01u8, 0x02, 0x11, 0x07, 0x11, 0x09];
    // The same array, nested inside a structure, so it decodes at a different offset
    // and a deeper level.
    let nested = [0x02u8, 0x01, 0x01, 0x02, 0x11, 0x07, 0x11, 0x09];

    let a = Data::from_bytes(&bare).unwrap();
    let outer = Data::from_bytes(&nested).unwrap();
    let b = outer.as_structure().unwrap().get(0).unwrap();

    assert_eq!(a, b, "the same array is the same array wherever it was found");
    assert_eq!(a.as_array().unwrap(), b.as_array().unwrap());
}

/// `bcd` looks like an integer on the wire and is not one.
#[test]
fn a_bcd_byte_is_not_the_integer_it_looks_like() {
    let d = Data::Bcd(0x25);
    assert_eq!(d.as_bcd(), Some(25), "0x25 reads as twenty-five");
    assert_eq!(d.as_i64(), None, "and must not quietly answer thirty-seven to a caller asking for an integer");
    // A nibble above nine is not a decimal digit.
    assert_eq!(Data::Bcd(0x1A).as_bcd(), None);
    assert_eq!(Data::Bcd(0xA1u8 as i8).as_bcd(), None);
    assert_eq!(Data::Bcd(0x99u8 as i8).as_bcd(), Some(99));
    // And nothing else answers to it.
    assert_eq!(Data::Unsigned(0x25).as_bcd(), None);
    assert_eq!(Data::Unsigned(0x25).as_i64(), Some(37));
}

#[test]
fn a_bit_string_is_numbered_from_its_most_significant_bit() {
    let bytes = [0b1010_0000u8];
    let b = BitStr::new(3, &bytes).unwrap();
    assert!(b.bit(0));
    assert!(!b.bit(1));
    assert!(b.bit(2));
    assert!(!b.bit(3), "past the end is false, not a panic");
    assert_eq!(b.to_u32(), 0b101);
}

#[test]
fn wire_form_round_trips_including_wildcards() {
    let raw = [0x07, 0xE9, 0x0C, 0x1F, 0xFF, 0x17, 0x3B, 0x3B, 0xFF, 0x00, 0x3C, 0x00];
    let dt = DateTime::from_bytes(raw);
    assert_eq!(dt.year, 2025);
    assert_eq!(dt.month, 12);
    assert_eq!(dt.day_of_month, 31);
    assert_eq!(dt.hour, 23);
    assert_eq!(dt.deviation, 60);
    assert_eq!(dt.to_bytes(), raw);
}

#[test]
fn deviation_is_minutes_behind_utc() {
    // Central European Time in winter is UTC+1, so the deviation is -60.
    let dt = DateTime::from_civil(2025, 1, 15, 12, 0, 0, 60);
    assert_eq!(dt.deviation, -60);
    assert_eq!(dt.utc_offset_minutes(), Some(60));
    // 2025-01-15T12:00:00+01:00 is 11:00 UTC.
    assert_eq!(dt.to_unix_seconds(), Some(1_736_938_800));
}

#[test]
fn an_absent_deviation_is_not_utc() {
    let mut dt = DateTime::from_civil(2025, 1, 15, 12, 0, 0, 0);
    dt.deviation = DEVIATION_NOT_SPECIFIED;
    assert_eq!(dt.utc_offset_minutes(), None);
    assert_eq!(dt.to_unix_seconds(), None, "must refuse rather than assume UTC");
}

#[test]
fn a_wildcard_is_not_a_timestamp() {
    assert!(DateTime::WILDCARD().has_wildcard());
    assert_eq!(DateTime::WILDCARD().to_unix_seconds(), None);
    let mut last_day = DateTime::from_civil(2025, 6, 1, 6, 0, 0, 120);
    last_day.day_of_month = 0xFE; // last day of month
    assert!(last_day.has_wildcard());
    assert_eq!(last_day.to_unix_seconds(), None);
}

#[test]
fn epoch_and_a_leap_day() {
    let epoch = DateTime::from_civil(1970, 1, 1, 0, 0, 0, 0);
    assert_eq!(epoch.to_unix_seconds(), Some(0));
    assert_eq!(epoch.day_of_week, 4, "1970-01-01 was a Thursday");
    let leap = DateTime::from_civil(2024, 2, 29, 0, 0, 0, 0);
    assert_eq!(leap.to_unix_seconds(), Some(1_709_164_800));
    assert_eq!(leap.day_of_week, 4, "2024-02-29 was a Thursday");
}

#[test]
fn out_of_range_fields_are_refused() {
    let mut dt = DateTime::from_civil(2025, 1, 1, 0, 0, 0, 0);
    dt.month = 13;
    assert_eq!(dt.to_unix_seconds(), None);
    let mut dt = DateTime::from_civil(2025, 1, 1, 0, 0, 0, 0);
    dt.hour = 24;
    assert_eq!(dt.to_unix_seconds(), None);
}

#[test]
fn a_day_that_does_not_exist_in_its_month_is_refused() {
    let mut dt = DateTime::from_civil(2025, 2, 28, 12, 0, 0, 0);
    assert!(dt.to_unix_seconds().is_some());
    dt.day_of_month = 29;
    assert_eq!(dt.to_unix_seconds(), None, "2025 is not a leap year");
    let mut leap = DateTime::from_civil(2024, 2, 28, 12, 0, 0, 0);
    leap.day_of_month = 29;
    assert!(leap.to_unix_seconds().is_some(), "2024 is");
    let mut april = DateTime::from_civil(2025, 4, 30, 12, 0, 0, 0);
    assert!(april.to_unix_seconds().is_some());
    april.day_of_month = 31;
    assert_eq!(april.to_unix_seconds(), None, "April has thirty days");
    // The century rule.
    let mut y1900 = DateTime::from_civil(1900, 2, 28, 0, 0, 0, 0);
    y1900.day_of_month = 29;
    assert_eq!(y1900.to_unix_seconds(), None);
    let mut y2000 = DateTime::from_civil(2000, 2, 28, 0, 0, 0, 0);
    y2000.day_of_month = 29;
    assert!(y2000.to_unix_seconds().is_some());
}

#[test]
fn a_leap_second_has_no_unix_timestamp() {
    let mut dt = DateTime::from_civil(2016, 12, 31, 23, 59, 59, 0);
    assert!(dt.to_unix_seconds().is_some());
    dt.second = 60;
    assert_eq!(dt.to_unix_seconds(), None, "23:59:60 is not a Unix second");
}

#[test]
fn every_type_prints_a_wildcard_the_same_way() {
    assert_eq!(Time { hour: 0xFF, minute: 30, second: 0xFF, hundredths: 0xFF }.to_string(), "**:30:**");
    assert_eq!(
        Date { year: 0xFFFF, month: 0xFF, day_of_month: 0xFE, day_of_week: 0xFF }.to_string(),
        "****-**-**",
        "the last day of any month is a pattern, not the 254th"
    );
    assert_eq!(DateTime::WILDCARD().to_string(), "****-**-**T**:**:**");
}

#[test]
fn clock_status_bits() {
    let s = ClockStatus(0x81);
    assert!(s.invalid());
    assert!(s.daylight_saving_active());
    assert!(!s.doubtful());
    assert!(ClockStatus::NOT_SPECIFIED().is_not_specified());
}

#[test]
fn units_name_themselves() {
    assert_eq!(Unit::WATT_HOUR().symbol(), Some("Wh"));
    assert_eq!(Unit::WATT_HOUR().name(), Some("active energy"));
    assert_eq!(Unit(200).symbol(), None, "an unlisted unit is not invented");
    assert_eq!(Unit(200).0, 200, "and still round-trips");
}

#[test]
fn a_reading_prints_exactly() {
    assert_eq!(ScaledValue::new(12_345, -3, Unit::WATT_HOUR()).to_string(), "12.345 Wh");
    assert_eq!(ScaledValue::new(-5, 0, Unit::WATT()).to_string(), "-5 W");
    assert_eq!(ScaledValue::new(7, 3, Unit::WATT()).to_string(), "7000 W");
    assert_eq!(ScaledValue::new(1, -2, Unit::NO_UNIT()).to_string(), "0.01");
}

#[test]
fn rescaling_is_exact_or_refused() {
    let v = ScaledValue::new(12_345, -3, Unit::WATT_HOUR());
    assert_eq!(v.rescale(-4).unwrap().value, 123_450);
    assert_eq!(v.rescale(-2), None, "would drop the last digit");
    assert_eq!(ScaledValue::new(12_300, -3, Unit::WATT_HOUR()).rescale(-1).unwrap().value, 123);
}
