//! Logical names.

use dlms_cosem::codec::{Encode, SliceWriter};
use dlms_cosem::obis::{Medium, Obis};

#[test]
fn textual_notation_round_trips() {
    let o = Obis::new(1, 0, 1, 8, 0, 255);
    assert_eq!(o.to_string(), "1-0:1.8.0*255");
    assert_eq!(Obis::parse(&o.to_string()).unwrap(), o);
}

#[test]
fn the_three_accepted_shapes() {
    assert_eq!(Obis::parse("1-0:1.8.0*255").unwrap(), Obis::new(1, 0, 1, 8, 0, 255));
    assert_eq!(Obis::parse("1-0:1.8.0").unwrap(), Obis::new(1, 0, 1, 8, 0, 255));
    assert_eq!(Obis::parse("1.8.0").unwrap(), Obis::new(1, 0, 1, 8, 0, 255));
}

#[test]
fn a_group_count_that_is_not_three_five_or_six_is_refused() {
    assert!(Obis::parse("1.8").is_err());
    assert!(Obis::parse("1-0:1.8").is_err());
    assert!(Obis::parse("1-0:1.8.0*255*1").is_err());
}

#[test]
fn a_group_above_255_is_refused_rather_than_truncated() {
    assert!(Obis::parse("1-0:1.8.256").is_err());
    assert!(Obis::parse("1-0:1.8.99999").is_err());
}

#[test]
fn junk_is_refused() {
    for s in ["", "-", "1-0:1.8.x", "1--0:1.8.0", "1-0:1.8.", "abc"] {
        assert!(Obis::parse(s).is_err(), "{s:?} should not parse");
    }
}

#[test]
fn wire_form_is_six_bytes_in_order() {
    let o = Obis::new(1, 0, 1, 8, 0, 255);
    let mut buf = [0u8; 6];
    let mut w = SliceWriter::new(&mut buf);
    o.encode(&mut w).unwrap();
    assert_eq!(buf, [1, 0, 1, 8, 0, 255]);
    assert_eq!(Obis::from_bytes(buf), o);
}

#[test]
fn manufacturer_ranges_are_recognised() {
    assert!(Obis::new(1, 0, 128, 8, 0, 255).is_manufacturer_specific());
    assert!(!Obis::new(1, 0, 1, 8, 0, 255).is_manufacturer_specific());
}

#[test]
fn media_classify() {
    assert_eq!(Obis::new(0, 0, 1, 0, 0, 255).medium(), Medium::Abstract);
    assert_eq!(Obis::new(7, 0, 3, 0, 0, 255).medium(), Medium::Gas);
    assert_eq!(Obis::new(3, 0, 3, 0, 0, 255).medium(), Medium::Reserved(3));
}

#[test]
fn a_name_is_groups_between_separators() {
    let full = Obis::new(1, 0, 1, 8, 0, 255);
    for text in ["1-0:1.8.0*255", "1.0.1.8.0.255", "001-0:1.8.0&255", "1-0:1.8.0", "1.8.0"] {
        assert_eq!(Obis::parse(text), Ok(full), "{text}");
    }
    for text in ["", ".", "1.8.", ".1.8", "1..8", "1.8", "1.2.3.4", "1.2.3.4.5.6.7", "1.8.256", "1.8.x", "1 .8.0"] {
        assert!(Obis::parse(text).is_err(), "{text}");
    }
}
