//! The object model: access rights, profiles, the class registry and short names.

use dlms_cosem::axdr::{Data, DateTime};
use dlms_cosem::codec::{Decode, ErrorKind};
use dlms_cosem::cosem::access::access_byte;
use dlms_cosem::cosem::classes::{Clock, ProfileGeneric, Register, DETAILED, NAMED};
use dlms_cosem::cosem::profile::apply_delta;
use dlms_cosem::cosem::registry::{all, exact};
use dlms_cosem::cosem::sn::resolve;
use dlms_cosem::cosem::{
    attribute_name, class_name, describe, method_name, AssociationVersion, AttributeAccess, CaptureObject,
    ClassDescriptor, EntryDescriptor, InterfaceClass, MethodAccess, ObjectListEntry, ProfileBuffer,
    RangeDescriptor, ShortName, ShortNameTarget, CLASS_COUNT, DETAILED_CLASS_COUNT, NAMED_CLASS_COUNT,
};
use dlms_cosem::obis::Obis;

#[test]
fn version_three_flags_are_the_bits_the_standard_numbers() {
    assert_eq!(AttributeAccess::READ().bits(), 1);
    assert_eq!(AttributeAccess::WRITE().bits(), 2);
    assert_eq!(AttributeAccess::AUTHENTICATED_REQUEST().bits(), 4);
    assert_eq!(AttributeAccess::DIGITALLY_SIGNED_RESPONSE().bits(), 128);
    assert_eq!(MethodAccess::ACCESS().bits(), 1);
    assert_eq!(MethodAccess::AUTHENTICATED_REQUEST().bits(), 4);
}

#[test]
fn the_legacy_enumeration_maps_onto_the_same_flags() {
    assert_eq!(AttributeAccess::from_legacy(1), AttributeAccess::READ());
    assert_eq!(AttributeAccess::from_legacy(3), AttributeAccess::READ().union(AttributeAccess::WRITE()));
    assert_eq!(
        AttributeAccess::from_legacy(4),
        AttributeAccess::READ().union(AttributeAccess::AUTHENTICATED_REQUEST())
    );
    assert_eq!(AttributeAccess::from_legacy(0), AttributeAccess::empty());
    assert!(AttributeAccess::from_legacy(4).requires_protection());
    assert!(!AttributeAccess::from_legacy(3).requires_protection());
}

#[test]
fn an_object_list_entry_decodes() {
    // structure { long-unsigned 3, unsigned 0, octet-string 1-0:1.8.0*255,
    //             structure { array {}, array {} } }
    let raw = [
        0x02, 0x04, //
        0x12, 0x00, 0x03, //
        0x11, 0x00, //
        0x09, 0x06, 1, 0, 1, 8, 0, 255, //
        0x02, 0x02, 0x01, 0x00, 0x01, 0x00,
    ];
    let d = Data::from_bytes(&raw).unwrap();
    let e = ObjectListEntry::from_data(&d).unwrap();
    assert_eq!(e.class_id, 3);
    assert_eq!(e.version, 0);
    assert_eq!(e.logical_name, Obis::new(1, 0, 1, 8, 0, 255));
    assert!(e.access_rights.is_some());
}

#[test]
fn attribute_rights_decode_in_both_shapes() {
    // access_rights { attribute_access { { 2, 3, null }, { 3, 1, null } }, method_access {} }
    let raw = [
        0x02, 0x04, //
        0x12, 0x00, 0x03, 0x11, 0x00, 0x09, 0x06, 1, 0, 1, 8, 0, 255, //
        0x02, 0x02, //
        0x01, 0x02, //
        0x02, 0x03, 0x0F, 0x02, 0x16, 0x03, 0x00, //
        0x02, 0x03, 0x0F, 0x03, 0x16, 0x01, 0x00, //
        0x01, 0x00,
    ];
    let d = Data::from_bytes(&raw).unwrap();
    let e = ObjectListEntry::from_data(&d).unwrap();
    let mut got = Vec::new();
    for r in e.for_each_attribute_right(AssociationVersion::Legacy).unwrap() {
        got.push((r.attribute_id, r.access));
    }
    assert_eq!(got.len(), 2);
    assert_eq!(got[0].0, 2);
    assert_eq!(got[0].1, AttributeAccess::READ().union(AttributeAccess::WRITE()));
    assert_eq!(got[1].1, AttributeAccess::READ());
}

#[test]
fn a_bit_string_access_mode_reads_its_first_byte() {
    let d = Data::from_bytes(&[0x04, 0x08, 0b0000_0011]).unwrap();
    assert_eq!(access_byte(&d), Some(0b0000_0011));
}

#[test]
fn a_range_descriptor_selects_by_clock() {
    let from = DateTime::from_civil(2025, 1, 1, 0, 0, 0, 60);
    let to = DateTime::from_civil(2025, 1, 2, 0, 0, 0, 60);
    let mut buf = [0u8; 64];
    let sa = RangeDescriptor::by_clock(from, to).to_selective_access(&mut buf).unwrap();
    assert_eq!(sa.selector, 1);
    let s = sa.parameters.as_structure().expect("a structure of four fields");
    assert_eq!(s.len(), 4);
    let restricting = s.get(0).unwrap();
    assert_eq!(restricting.as_structure().unwrap().len(), 4);
    assert_eq!(
        CaptureObject::from_data(&restricting).unwrap().logical_name,
        Obis::new(0, 0, 1, 0, 0, 255)
    );
}

#[test]
fn an_entry_descriptor_selects_by_position() {
    let mut buf = [0u8; 32];
    let sa = EntryDescriptor::entries(1, 10).to_selective_access(&mut buf).unwrap();
    assert_eq!(sa.selector, 2);
    let s = sa.parameters.as_structure().unwrap();
    assert_eq!(s.get(0).unwrap().as_u64(), Some(1));
    assert_eq!(s.get(1).unwrap().as_u64(), Some(10));
    assert_eq!(s.get(3).unwrap().as_u64(), Some(0), "zero means every column");
}

#[test]
fn null_data_compression_is_undone_against_the_previous_row() {
    // Two columns; the second row repeats the first column.
    let raw = [
        0x01, 0x02, //
        0x02, 0x02, 0x11, 0x07, 0x12, 0x00, 0x64, //
        0x02, 0x02, 0x00, 0x12, 0x00, 0xC8,
    ];
    let d = Data::from_bytes(&raw).unwrap();
    let buffer = ProfileBuffer::new(&d).unwrap();
    assert_eq!(buffer.len(), 2);
    let mut cells = Vec::new();
    for c in buffer.for_each_cell(2).unwrap() {
        cells.push((c.row, c.column, c.value.as_i64()));
    }
    assert_eq!(cells[0], (0, 0, Some(7)));
    assert_eq!(cells[1], (0, 1, Some(100)));
    assert_eq!(cells[2], (1, 0, Some(7)), "the repeated column carried forward");
    assert_eq!(cells[3], (1, 1, Some(200)));
}

#[test]
fn a_short_row_repeats_the_columns_it_left_out() {
    // Two columns. The second row carries only the first, so the second column is
    // unchanged — the other half of null-data compression, and the half a caller
    // notices only when a reading silently goes missing.
    let raw = [
        0x01, 0x02, //
        0x02, 0x02, 0x11, 0x07, 0x12, 0x00, 0x64, //
        0x02, 0x01, 0x11, 0x09,
    ];
    let d = Data::from_bytes(&raw).unwrap();
    let buffer = ProfileBuffer::new(&d).unwrap();
    let mut cells = Vec::new();
    for c in buffer.for_each_cell(2).unwrap() {
        cells.push((c.row, c.column, c.value.as_i64()));
    }
    assert_eq!(cells.len(), 4, "every row yields every column");
    assert_eq!(cells[2], (1, 0, Some(9)));
    assert_eq!(cells[3], (1, 1, Some(100)), "the column the row left out carried forward");
}

/// Delta encoding: a column sends the difference from the previous row.
///
/// A caller that skipped this gets no error — it gets *differences where readings
/// were meant*, which for a rising register looks like a meter that suddenly reads
/// almost nothing.
#[test]
fn delta_columns_are_expanded_against_the_previous_row() {
    // One column. Row 0 is an absolute double-long-unsigned 1 000 000; rows 1 and 2
    // send delta-double-long-unsigned increments of 250 and 300.
    let raw = [
        0x01, 0x03, //
        0x02, 0x01, 0x06, 0x00, 0x0F, 0x42, 0x40, //
        0x02, 0x01, 0x21, 0x00, 0x00, 0x00, 0xFA, //
        0x02, 0x01, 0x21, 0x00, 0x00, 0x01, 0x2C,
    ];
    let d = Data::from_bytes(&raw).unwrap();
    let buffer = ProfileBuffer::new(&d).unwrap();
    let mut values = Vec::new();
    for c in buffer.for_each_cell(1).unwrap() {
        values.push(c.value.as_u64());
    }
    assert_eq!(values, [Some(1_000_000), Some(1_000_250), Some(1_000_550)]);
}

/// A signed delta may go down, and the expansion wraps where the meter's register
/// wraps rather than saturating — a rollover that saturated would read as a meter
/// that stopped counting.
#[test]
fn a_signed_delta_may_decrease_and_the_arithmetic_wraps() {
    assert_eq!(apply_delta(Data::Long(100), Data::DeltaLong(-30)), Some(Data::Long(70)));
    assert_eq!(
        apply_delta(Data::DoubleLongUnsigned(u32::MAX), Data::DeltaDoubleLongUnsigned(2)),
        Some(Data::DoubleLongUnsigned(1)),
        "a register rollover is a rollover, not a ceiling"
    );
}

/// A delta whose width disagrees with the value it follows is a column whose type
/// changed mid-buffer. Widening it silently would hand back a number nobody sent.
#[test]
fn a_delta_of_the_wrong_width_is_refused_rather_than_widened() {
    assert_eq!(apply_delta(Data::DoubleLongUnsigned(1000), Data::DeltaLongUnsigned(5)), None);
    assert_eq!(apply_delta(Data::Unsigned(1), Data::DeltaInteger(1)), None);

    let raw = [
        0x01, 0x02, //
        0x02, 0x01, 0x06, 0x00, 0x0F, 0x42, 0x40, //
        0x02, 0x01, 0x20, 0x00, 0xFA,
    ];
    let d = Data::from_bytes(&raw).unwrap();
    let buffer = ProfileBuffer::new(&d).unwrap();
    assert_eq!(buffer.for_each_cell(1).unwrap_err().kind, ErrorKind::TypeMismatch);
}

/// A delta in the first row is relative to nothing.
#[test]
fn a_leading_delta_is_refused_like_a_leading_null() {
    let raw = [0x01, 0x01, 0x02, 0x01, 0x21, 0x00, 0x00, 0x00, 0x05];
    let d = Data::from_bytes(&raw).unwrap();
    let buffer = ProfileBuffer::new(&d).unwrap();
    assert!(buffer.for_each_cell(1).is_err());
}

#[test]
fn a_leading_null_has_nothing_to_repeat_and_is_refused() {
    let raw = [0x01, 0x01, 0x02, 0x01, 0x00];
    let d = Data::from_bytes(&raw).unwrap();
    let buffer = ProfileBuffer::new(&d).unwrap();
    assert!(buffer.for_each_cell(1).is_err());
}

#[test]
fn a_class_type_and_its_descriptor_agree() {
    assert_eq!(Register::CLASS_ID, 3);
    assert_eq!(Register::VERSION, 0);
    let d = Register::descriptor();
    assert_eq!(d.class_id, 3);
    assert_eq!(d.attribute(3).unwrap().name, "scaler_unit");
    assert_eq!(d.method(1).unwrap().name, "reset");
}

#[test]
fn the_registry_finds_both_depths() {
    assert_eq!(class_name(7), Some("Profile generic"));
    assert_eq!(class_name(152), Some("CoAP setup"));
    assert_eq!(class_name(9999), None);
    assert!(!describe(7, 1).unwrap().is_name_only());
    assert!(describe(152, 0).unwrap().is_name_only());
}

#[test]
fn an_unknown_version_falls_back_but_says_so() {
    let d = describe(3, 9).unwrap();
    assert_eq!(d.class_id, 3);
    assert_eq!(d.version, 0, "the descriptor names the version it actually describes");
    assert!(exact(3, 9).is_none());
}

#[test]
fn attribute_one_is_always_the_logical_name() {
    assert_eq!(attribute_name(7, 1, 1), Some("logical_name"));
    assert_eq!(attribute_name(152, 0, 1), Some("logical_name"), "even for a name-only class");
    assert_eq!(attribute_name(152, 0, 2), None);
}

#[test]
fn the_translator_can_label_the_common_classes() {
    assert_eq!(attribute_name(8, 0, 2), Some("time"));
    assert_eq!(attribute_name(7, 1, 2), Some("buffer"));
    assert_eq!(method_name(70, 2, 1), Some("remote_disconnect"));
    assert_eq!(method_name(15, 3, 1), Some("reply_to_hls_authentication"));
}

/// The counts that documents quote. A number in prose drifts silently; a number in an
/// assertion cannot.
#[test]
fn the_table_is_the_size_the_documents_say_it_is() {
    let detailed = DETAILED().len();
    let named = NAMED().len();
    assert_eq!(detailed, DETAILED_CLASS_COUNT, "classes with full attribute and method tables");
    assert_eq!(named, NAMED_CLASS_COUNT, "classes carrying an id, a version and a name");
    assert_eq!(all().len(), CLASS_COUNT);
    // And every detailed class is detailed: a name-only entry in the wrong list
    // would keep the count right and the meaning wrong.
    assert!(DETAILED().iter().all(|c| !c.is_name_only()));
    assert!(NAMED().iter().all(ClassDescriptor::is_name_only));
}

#[test]
fn no_two_entries_describe_the_same_class_and_version() {
    let mut seen = Vec::new();
    for c in all() {
        let key = (c.class_id, c.version);
        assert!(!seen.contains(&key), "duplicate entry for class {} v{}", c.class_id, c.version);
        seen.push(key);
    }
}

#[test]
fn every_detailed_class_starts_with_its_logical_name() {
    for c in DETAILED() {
        let first = c.attributes.first().expect("a detailed class has attributes");
        assert_eq!(first.index, 1, "{} does not start at attribute 1", c.name);
        assert_eq!(first.name, "logical_name", "{}'s attribute 1 is not the logical name", c.name);
    }
}

#[test]
fn attribute_indices_are_ascending_and_unique() {
    for c in DETAILED() {
        let mut last = 0i8;
        for a in c.attributes {
            assert!(a.index > last, "{}: attribute {} is out of order", c.name, a.index);
            last = a.index;
        }
        let mut last = 0i8;
        for m in c.methods {
            assert!(m.index > last, "{}: method {} is out of order", c.name, m.index);
            last = m.index;
        }
    }
}

#[test]
fn clock_and_profile_generic_carry_the_versions_the_blue_book_gives_them() {
    assert_eq!(Clock::VERSION, 0);
    assert_eq!(ProfileGeneric::VERSION, 1, "profile generic is at version 1");
}

#[test]
fn the_registry_holds_the_number_of_classes_the_documents_claim() {
    assert_eq!(DETAILED().len(), 25, "classes with full attribute and method tables");
    assert_eq!(NAMED().len(), 77, "classes carrying a name and version only");
    assert_eq!(DETAILED().len() + NAMED().len(), 102, "classes in the registry");
}

fn energy() -> Obis {
    Obis::new(1, 0, 1, 8, 0, 255)
}

/// Attribute 1 is `x`, 2 is `x + 0x08`, 3 is `x + 0x10`.
#[test]
fn attributes_sit_eight_apart_from_the_base_name() {
    let r = ShortName::new(0x0028, 3, energy(), 3);
    assert_eq!(r.attribute(1), Some(0x0028));
    assert_eq!(r.attribute(2), Some(0x0030));
    assert_eq!(r.attribute(3), Some(0x0038));
    assert_eq!(r.attribute(4), None, "the class has three");
    assert_eq!(r.attribute(0), None, "indexes count from one");
}

/// `Register` has three attributes and puts `reset` at `x + 0x28` — which is *not*
/// where "after the attributes" would put it. That is the whole reason the offset is
/// a parameter rather than a formula.
#[test]
fn a_method_offset_is_the_classs_own_and_is_not_derivable() {
    let r = ShortName::new(0x0028, 3, energy(), 3).with_methods(0x28, 1);
    assert_eq!(r.method(1), Some(0x0050));
    assert_ne!(r.method(1), r.attribute(3).map(|a| a + 8), "not simply after the attributes");

    // Without the offset the methods are not addressable, which is the answer that
    // keeps a guess off the wire.
    let unknown = ShortName::new(0x0028, 3, energy(), 3);
    assert_eq!(unknown.method(1), None);
    assert_eq!(unknown.resolve(0x0050), None);
}

#[test]
fn resolving_is_the_inverse_of_naming() {
    let r = ShortName::new(0x0028, 3, energy(), 3).with_methods(0x28, 1);
    for index in 1..=3i8 {
        let name = r.attribute(index).unwrap();
        assert_eq!(
            r.resolve(name),
            Some(ShortNameTarget::Attribute { class_id: 3, logical_name: energy(), attribute_id: index })
        );
    }
    let name = r.method(1).unwrap();
    assert_eq!(
        r.resolve(name),
        Some(ShortNameTarget::Method { class_id: 3, logical_name: energy(), method_id: 1 })
    );
}

#[test]
fn a_name_that_is_not_this_objects_resolves_to_nothing() {
    let r = ShortName::new(0x0028, 3, energy(), 3).with_methods(0x28, 1);
    assert_eq!(r.resolve(0x0020), None, "below the base");
    assert_eq!(r.resolve(0x0029), None, "off the eight-byte grid");
    assert_eq!(r.resolve(0x0040), None, "between the last attribute and the methods");
    assert_eq!(r.resolve(0x0058), None, "past the only method");
}

#[test]
fn a_table_finds_the_object_a_name_belongs_to() {
    let clock = Obis::new(0, 0, 1, 0, 0, 255);
    let objects =
        [ShortName::new(0x0028, 3, energy(), 3).with_methods(0x28, 1), ShortName::new(0x0100, 8, clock, 9)];
    assert!(matches!(
        resolve(&objects, 0x0030),
        Some(ShortNameTarget::Attribute { class_id: 3, attribute_id: 2, .. })
    ));
    assert!(matches!(
        resolve(&objects, 0x0108),
        Some(ShortNameTarget::Attribute { class_id: 8, attribute_id: 2, .. })
    ));
    assert_eq!(resolve(&objects, 0x0200), None);
}

/// A base name near the top of the range must not wrap into a name that belongs to
/// something else. `0xFA00` is the current association object's base, and a meter
/// with objects above it is ordinary.
#[test]
fn arithmetic_near_the_top_of_the_range_saturates_rather_than_wrapping() {
    let r = ShortName::new(0xFFF8, 1, energy(), 2);
    assert_eq!(r.attribute(1), Some(0xFFF8));
    assert_eq!(r.attribute(2), None, "0xFFF8 + 8 does not fit");
}

#[test]
fn short_names_are_numbered_from_one_to_one_hundred_and_twenty_seven() {
    let o = Obis::new(1, 0, 1, 8, 0, 255);
    let s = ShortName::new(0x1000, 3, o, 255);
    let last = 0x1000 + 126 * 8;
    assert_eq!(
        s.resolve(last),
        Some(ShortNameTarget::Attribute { class_id: 3, logical_name: o, attribute_id: 127 })
    );
    assert_eq!(s.attribute(127), Some(last));
    assert_eq!(s.resolve(last + 8), None);
    let s = ShortName::new(0x1000, 3, o, 1).with_methods(8, 255);
    assert_eq!(
        s.resolve(last + 8),
        Some(ShortNameTarget::Method { class_id: 3, logical_name: o, method_id: 127 })
    );
    assert_eq!(s.method(127), Some(last + 8));
    assert_eq!(s.resolve(last + 16), None);
}
