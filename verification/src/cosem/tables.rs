//! What the classes are that the registry tells of, by their identifiers.

use vstd::prelude::*;

#[allow(unused_imports)]
use super::class::{attribute, method, AttrType, ClassV, DefaultAccess};
#[allow(unused_imports)]
use super::classes::{named, named_entry};
#[allow(unused_imports)]
use super::registry::{described, entry, law_known_classes_are_described};

verus! {

/// Whether a description gives a class this version, this name, these attributes, numbered
/// from one on behind the logical name, and these methods, numbered from one on.
pub open spec fn tells(
    c: Option<ClassV>,
    version: u8,
    name: &'static str,
    attributes: Seq<(&'static str, AttrType, DefaultAccess)>,
    methods: Seq<&'static str>,
) -> bool {
    &&& c is Some
    &&& c->0.version == version
    &&& c->0.name == name
    &&& c->0.attributes.len() == attributes.len() + 1
    &&& c->0.attributes[0] == attribute(1, "logical_name", AttrType::ObisCode, DefaultAccess::Read)
    &&& forall|k: int|
        0 <= k < attributes.len() ==> #[trigger] c->0.attributes[k + 1] == attribute(
            (k + 2) as i8,
            attributes[k].0,
            attributes[k].1,
            attributes[k].2,
        )
    &&& c->0.methods.len() == methods.len()
    &&& forall|k: int|
        0 <= k < methods.len() ==> #[trigger] c->0.methods[k] == method((k + 1) as i8, methods[k])
}

/// Whether a description gives a class this version and this name, and no more.
pub open spec fn only_names(c: Option<ClassV>, version: u8, name: &'static str) -> bool {
    &&& c is Some
    &&& c->0.version == version
    &&& c->0.name == name
    &&& c->0.attributes.len() == 0
    &&& c->0.methods.len() == 0
}

/// What class 1 is, whatever version is asked for.
pub proof fn law_data_is_told(v: u8)
    ensures
        tells(
            described(1, v),
            0,
            "Data",
            seq![
                ("value", AttrType::Any, DefaultAccess::ReadWrite),
            ],
            Seq::<&'static str>::empty(),
        ),
{
    law_known_classes_are_described(0, v);
}

/// What class 3 is, whatever version is asked for.
pub proof fn law_register_is_told(v: u8)
    ensures
        tells(
            described(3, v),
            0,
            "Register",
            seq![
                ("value", AttrType::Any, DefaultAccess::ReadWrite),
                ("scaler_unit", AttrType::ScalerUnit, DefaultAccess::Read),
            ],
            seq!["reset"],
        ),
{
    law_known_classes_are_described(1, v);
}

/// What class 4 is, whatever version is asked for.
pub proof fn law_extended_register_is_told(v: u8)
    ensures
        tells(
            described(4, v),
            0,
            "Extended register",
            seq![
                ("value", AttrType::Any, DefaultAccess::ReadWrite),
                ("scaler_unit", AttrType::ScalerUnit, DefaultAccess::Read),
                ("status", AttrType::Any, DefaultAccess::Read),
                ("capture_time", AttrType::DateTime, DefaultAccess::Read),
            ],
            seq!["reset"],
        ),
{
    law_known_classes_are_described(2, v);
}

/// What class 5 is, whatever version is asked for.
pub proof fn law_demand_register_is_told(v: u8)
    ensures
        tells(
            described(5, v),
            0,
            "Demand register",
            seq![
                ("current_average_value", AttrType::Any, DefaultAccess::Read),
                ("last_average_value", AttrType::Any, DefaultAccess::Read),
                ("scaler_unit", AttrType::ScalerUnit, DefaultAccess::Read),
                ("status", AttrType::Any, DefaultAccess::Read),
                ("capture_time", AttrType::DateTime, DefaultAccess::Read),
                ("start_time_current", AttrType::DateTime, DefaultAccess::Read),
                ("period", AttrType::DoubleLongUnsigned, DefaultAccess::ReadWrite),
                ("number_of_periods", AttrType::LongUnsigned, DefaultAccess::ReadWrite),
            ],
            seq!["reset", "next_period"],
        ),
{
    law_known_classes_are_described(3, v);
}

/// What class 6 is, whatever version is asked for.
pub proof fn law_register_activation_is_told(v: u8)
    ensures
        tells(
            described(6, v),
            0,
            "Register activation",
            seq![
                ("register_assignment", AttrType::Array, DefaultAccess::ReadWrite),
                ("mask_list", AttrType::Array, DefaultAccess::ReadWrite),
                ("active_mask", AttrType::OctetString, DefaultAccess::Read),
            ],
            seq!["add_register", "add_mask", "delete_mask"],
        ),
{
    law_known_classes_are_described(4, v);
}

/// What class 7 is, whatever version is asked for.
pub proof fn law_profile_generic_is_told(v: u8)
    ensures
        tells(
            described(7, v),
            1,
            "Profile generic",
            seq![
                ("buffer", AttrType::Array, DefaultAccess::ReadWrite),
                ("capture_objects", AttrType::Array, DefaultAccess::ReadWrite),
                ("capture_period", AttrType::DoubleLongUnsigned, DefaultAccess::ReadWrite),
                ("sort_method", AttrType::Enum, DefaultAccess::ReadWrite),
                ("sort_object", AttrType::Structure, DefaultAccess::ReadWrite),
                ("entries_in_use", AttrType::DoubleLongUnsigned, DefaultAccess::Read),
                ("profile_entries", AttrType::DoubleLongUnsigned, DefaultAccess::ReadWrite),
            ],
            seq!["reset", "capture"],
        ),
{
    law_known_classes_are_described(5, v);
}

/// What class 8 is, whatever version is asked for.
pub proof fn law_clock_is_told(v: u8)
    ensures
        tells(
            described(8, v),
            0,
            "Clock",
            seq![
                ("time", AttrType::DateTime, DefaultAccess::ReadWrite),
                ("time_zone", AttrType::Long, DefaultAccess::ReadWrite),
                ("status", AttrType::Unsigned, DefaultAccess::Read),
                ("daylight_savings_begin", AttrType::DateTime, DefaultAccess::ReadWrite),
                ("daylight_savings_end", AttrType::DateTime, DefaultAccess::ReadWrite),
                ("daylight_savings_deviation", AttrType::Integer, DefaultAccess::ReadWrite),
                ("daylight_savings_enabled", AttrType::Boolean, DefaultAccess::ReadWrite),
                ("clock_base", AttrType::Enum, DefaultAccess::ReadWrite),
            ],
            seq![
                "adjust_to_quarter",
                "adjust_to_measuring_period",
                "adjust_to_minute",
                "adjust_to_preset_time",
                "preset_adjusting_time",
                "shift_time",
            ],
        ),
{
    law_known_classes_are_described(6, v);
}

/// What class 9 is, whatever version is asked for.
pub proof fn law_script_table_is_told(v: u8)
    ensures
        tells(
            described(9, v),
            0,
            "Script table",
            seq![
                ("scripts", AttrType::Array, DefaultAccess::ReadWrite),
            ],
            seq!["execute"],
        ),
{
    law_known_classes_are_described(7, v);
}

/// What class 10 is, whatever version is asked for.
pub proof fn law_schedule_is_told(v: u8)
    ensures
        tells(
            described(10, v),
            0,
            "Schedule",
            seq![
                ("entries", AttrType::Array, DefaultAccess::ReadWrite),
            ],
            seq!["enable_disable", "insert", "delete"],
        ),
{
    law_known_classes_are_described(8, v);
}

/// What class 11 is, whatever version is asked for.
pub proof fn law_special_days_table_is_told(v: u8)
    ensures
        tells(
            described(11, v),
            0,
            "Special days table",
            seq![
                ("entries", AttrType::Array, DefaultAccess::ReadWrite),
            ],
            seq!["insert", "delete"],
        ),
{
    law_known_classes_are_described(9, v);
}

/// What class 15 is, whatever version is asked for.
pub proof fn law_association_ln_is_told(v: u8)
    ensures
        tells(
            described(15, v),
            3,
            "Association LN",
            seq![
                ("object_list", AttrType::Array, DefaultAccess::Read),
                ("associated_partners_id", AttrType::Structure, DefaultAccess::Read),
                ("application_context_name", AttrType::OctetString, DefaultAccess::Read),
                ("xdlms_context_info", AttrType::Structure, DefaultAccess::Read),
                ("authentication_mechanism_name", AttrType::OctetString, DefaultAccess::Read),
                ("secret", AttrType::OctetString, DefaultAccess::Write),
                ("association_status", AttrType::Enum, DefaultAccess::Read),
                ("security_setup_reference", AttrType::ObisCode, DefaultAccess::Read),
                ("user_list", AttrType::Array, DefaultAccess::ReadWrite),
                ("current_user", AttrType::Structure, DefaultAccess::Read),
            ],
            seq![
                "reply_to_hls_authentication",
                "change_hls_secret",
                "add_object",
                "remove_object",
                "add_user",
                "remove_user",
            ],
        ),
{
    law_known_classes_are_described(10, v);
}

/// What class 17 is, whatever version is asked for.
pub proof fn law_sap_assignment_is_told(v: u8)
    ensures
        tells(
            described(17, v),
            0,
            "SAP assignment",
            seq![
                ("sap_assignment_list", AttrType::Array, DefaultAccess::Read),
            ],
            seq!["connect_logical_device"],
        ),
{
    law_known_classes_are_described(11, v);
}

/// What class 18 is, whatever version is asked for.
pub proof fn law_image_transfer_is_told(v: u8)
    ensures
        tells(
            described(18, v),
            0,
            "Image transfer",
            seq![
                ("image_block_size", AttrType::DoubleLongUnsigned, DefaultAccess::Read),
                ("image_transferred_blocks_status", AttrType::BitString, DefaultAccess::Read),
                ("image_first_not_transferred_block_number", AttrType::DoubleLongUnsigned, DefaultAccess::Read),
                ("image_transfer_enabled", AttrType::Boolean, DefaultAccess::ReadWrite),
                ("image_transfer_status", AttrType::Enum, DefaultAccess::Read),
                ("image_to_activate_info", AttrType::Array, DefaultAccess::Read),
            ],
            seq![
                "image_transfer_initiate",
                "image_block_transfer",
                "image_verify",
                "image_activate",
            ],
        ),
{
    law_known_classes_are_described(12, v);
}

/// What class 20 is, whatever version is asked for.
pub proof fn law_activity_calendar_is_told(v: u8)
    ensures
        tells(
            described(20, v),
            0,
            "Activity calendar",
            seq![
                ("calendar_name_active", AttrType::OctetString, DefaultAccess::Read),
                ("season_profile_active", AttrType::Array, DefaultAccess::Read),
                ("week_profile_table_active", AttrType::Array, DefaultAccess::Read),
                ("day_profile_table_active", AttrType::Array, DefaultAccess::Read),
                ("calendar_name_passive", AttrType::OctetString, DefaultAccess::ReadWrite),
                ("season_profile_passive", AttrType::Array, DefaultAccess::ReadWrite),
                ("week_profile_table_passive", AttrType::Array, DefaultAccess::ReadWrite),
                ("day_profile_table_passive", AttrType::Array, DefaultAccess::ReadWrite),
                ("activate_passive_calendar_time", AttrType::DateTime, DefaultAccess::ReadWrite),
            ],
            seq!["activate_passive_calendar"],
        ),
{
    law_known_classes_are_described(13, v);
}

/// What class 21 is, whatever version is asked for.
pub proof fn law_register_monitor_is_told(v: u8)
    ensures
        tells(
            described(21, v),
            0,
            "Register monitor",
            seq![
                ("thresholds", AttrType::Array, DefaultAccess::ReadWrite),
                ("monitored_value", AttrType::Structure, DefaultAccess::ReadWrite),
                ("actions", AttrType::Array, DefaultAccess::ReadWrite),
            ],
            Seq::<&'static str>::empty(),
        ),
{
    law_known_classes_are_described(14, v);
}

/// What class 22 is, whatever version is asked for.
pub proof fn law_single_action_schedule_is_told(v: u8)
    ensures
        tells(
            described(22, v),
            0,
            "Single action schedule",
            seq![
                ("executed_script", AttrType::Structure, DefaultAccess::ReadWrite),
                ("type", AttrType::Enum, DefaultAccess::ReadWrite),
                ("execution_time", AttrType::Array, DefaultAccess::ReadWrite),
            ],
            Seq::<&'static str>::empty(),
        ),
{
    law_known_classes_are_described(15, v);
}

/// What class 23 is, whatever version is asked for.
pub proof fn law_iec_hdlc_setup_is_told(v: u8)
    ensures
        tells(
            described(23, v),
            1,
            "IEC HDLC setup",
            seq![
                ("comm_speed", AttrType::Enum, DefaultAccess::ReadWrite),
                ("window_size_transmit", AttrType::Unsigned, DefaultAccess::ReadWrite),
                ("window_size_receive", AttrType::Unsigned, DefaultAccess::ReadWrite),
                ("max_info_field_length_transmit", AttrType::LongUnsigned, DefaultAccess::ReadWrite),
                ("max_info_field_length_receive", AttrType::LongUnsigned, DefaultAccess::ReadWrite),
                ("inter_octet_time_out", AttrType::LongUnsigned, DefaultAccess::ReadWrite),
                ("inactivity_time_out", AttrType::LongUnsigned, DefaultAccess::ReadWrite),
                ("device_address", AttrType::LongUnsigned, DefaultAccess::Read),
            ],
            Seq::<&'static str>::empty(),
        ),
{
    law_known_classes_are_described(16, v);
}

/// What class 62 is, whatever version is asked for.
pub proof fn law_compact_data_is_told(v: u8)
    ensures
        tells(
            described(62, v),
            1,
            "Compact data",
            seq![
                ("buffer", AttrType::OctetString, DefaultAccess::Read),
                ("capture_objects", AttrType::Array, DefaultAccess::ReadWrite),
                ("template_id", AttrType::Unsigned, DefaultAccess::ReadWrite),
                ("template_description", AttrType::OctetString, DefaultAccess::Read),
                ("capture_method", AttrType::Enum, DefaultAccess::ReadWrite),
            ],
            seq!["reset", "capture"],
        ),
{
    law_known_classes_are_described(17, v);
}

/// What class 64 is, whatever version is asked for.
pub proof fn law_security_setup_is_told(v: u8)
    ensures
        tells(
            described(64, v),
            1,
            "Security setup",
            seq![
                ("security_policy", AttrType::Unsigned, DefaultAccess::Read),
                ("security_suite", AttrType::Enum, DefaultAccess::Read),
                ("client_system_title", AttrType::OctetString, DefaultAccess::Read),
                ("server_system_title", AttrType::OctetString, DefaultAccess::Read),
                ("certificates", AttrType::Array, DefaultAccess::Read),
            ],
            seq![
                "security_activate",
                "key_transfer",
                "key_agreement",
                "generate_key_pair",
                "generate_certificate_request",
                "import_certificate",
                "export_certificate",
                "remove_certificate",
            ],
        ),
{
    law_known_classes_are_described(18, v);
}

/// What class 70 is, whatever version is asked for.
pub proof fn law_disconnect_control_is_told(v: u8)
    ensures
        tells(
            described(70, v),
            2,
            "Disconnect control",
            seq![
                ("output_state", AttrType::Boolean, DefaultAccess::Read),
                ("control_state", AttrType::Enum, DefaultAccess::Read),
                ("control_mode", AttrType::Enum, DefaultAccess::ReadWrite),
            ],
            seq!["remote_disconnect", "remote_reconnect"],
        ),
{
    law_known_classes_are_described(19, v);
}

/// What class 71 is, whatever version is asked for.
pub proof fn law_limiter_is_told(v: u8)
    ensures
        tells(
            described(71, v),
            0,
            "Limiter",
            seq![
                ("monitored_value", AttrType::Structure, DefaultAccess::Read),
                ("threshold_active", AttrType::Any, DefaultAccess::Read),
                ("threshold_normal", AttrType::Any, DefaultAccess::ReadWrite),
                ("threshold_emergency", AttrType::Any, DefaultAccess::ReadWrite),
                ("min_over_threshold_duration", AttrType::DoubleLongUnsigned, DefaultAccess::ReadWrite),
                ("min_under_threshold_duration", AttrType::DoubleLongUnsigned, DefaultAccess::ReadWrite),
                ("emergency_profile", AttrType::Structure, DefaultAccess::ReadWrite),
                ("emergency_profile_group_id_list", AttrType::Array, DefaultAccess::ReadWrite),
                ("emergency_profile_active", AttrType::Boolean, DefaultAccess::Read),
                ("actions", AttrType::Structure, DefaultAccess::ReadWrite),
            ],
            Seq::<&'static str>::empty(),
        ),
{
    law_known_classes_are_described(20, v);
}

/// What class 40 is, whatever version is asked for.
pub proof fn law_push_setup_is_told(v: u8)
    ensures
        tells(
            described(40, v),
            3,
            "Push setup",
            seq![
                ("push_object_list", AttrType::Array, DefaultAccess::ReadWrite),
                ("send_destination_and_method", AttrType::Structure, DefaultAccess::ReadWrite),
                ("communication_window", AttrType::Array, DefaultAccess::ReadWrite),
                ("randomisation_start_interval", AttrType::LongUnsigned, DefaultAccess::ReadWrite),
                ("number_of_retries", AttrType::Unsigned, DefaultAccess::ReadWrite),
                ("repetition_delay", AttrType::LongUnsigned, DefaultAccess::ReadWrite),
                ("port_reference", AttrType::ObisCode, DefaultAccess::Read),
                ("push_client_sap", AttrType::Integer, DefaultAccess::ReadWrite),
                ("push_protection_parameters", AttrType::Array, DefaultAccess::ReadWrite),
                ("push_operation_method", AttrType::Enum, DefaultAccess::ReadWrite),
                ("confirmation_parameters", AttrType::Structure, DefaultAccess::ReadWrite),
                ("last_confirmation_date_time", AttrType::DateTime, DefaultAccess::Read),
            ],
            seq!["push", "reset"],
        ),
{
    law_known_classes_are_described(21, v);
}

/// What class 41 is, whatever version is asked for.
pub proof fn law_tcp_udp_setup_is_told(v: u8)
    ensures
        tells(
            described(41, v),
            0,
            "TCP-UDP setup",
            seq![
                ("tcp_udp_port", AttrType::LongUnsigned, DefaultAccess::ReadWrite),
                ("ip_reference", AttrType::ObisCode, DefaultAccess::ReadWrite),
                ("mss", AttrType::LongUnsigned, DefaultAccess::ReadWrite),
                ("nb_of_sim_conn", AttrType::Unsigned, DefaultAccess::ReadWrite),
                ("inactivity_time_out", AttrType::LongUnsigned, DefaultAccess::ReadWrite),
            ],
            Seq::<&'static str>::empty(),
        ),
{
    law_known_classes_are_described(22, v);
}

/// What class 30 is, whatever version is asked for.
pub proof fn law_data_protection_is_told(v: u8)
    ensures
        tells(
            described(30, v),
            0,
            "Data protection",
            seq![
                ("protection_buffer", AttrType::Array, DefaultAccess::Read),
                ("protection_object_list", AttrType::Array, DefaultAccess::ReadWrite),
            ],
            seq!["get_protected_attributes", "set_protected_attributes", "invoke_protected_method"],
        ),
{
    law_known_classes_are_described(23, v);
}

/// What class 170 is, whatever version is asked for.
pub proof fn law_attestation_is_told(v: u8)
    ensures
        tells(
            described(170, v),
            0,
            "Attestation",
            seq![
                ("attestation_token", AttrType::OctetString, DefaultAccess::Read),
                ("qualification_declaration", AttrType::OctetString, DefaultAccess::Read),
            ],
            seq!["generate_attestation_token"],
        ),
{
    law_known_classes_are_described(24, v);
}

proof fn lemma_named(i: usize, class_id: u16, version: u8, name: &'static str, v: u8)
    requires
        i < 77,
        named_entry(i) == (class_id, version, name),
    ensures
        only_names(described(class_id, v), version, name),
{
    assert(entry(25 + i as int) == named(i as int));
    law_known_classes_are_described(25 + i as int, v);
}

/// What classes 12 to 46 are called, where that is all that is told of them.
pub proof fn law_classes_12_to_46_are_named(v: u8)
    ensures
        only_names(described(12, v), 4, "Association SN"),
        only_names(described(19, v), 1, "IEC local port setup"),
        only_names(described(24, v), 1, "IEC twisted pair (1) setup"),
        only_names(described(25, v), 0, "M-Bus slave port setup"),
        only_names(described(26, v), 0, "Utility tables"),
        only_names(described(27, v), 1, "Modem configuration"),
        only_names(described(28, v), 2, "Auto answer"),
        only_names(described(29, v), 2, "Auto connect"),
        only_names(described(42, v), 0, "IPv4 setup"),
        only_names(described(43, v), 0, "MAC address setup"),
        only_names(described(44, v), 0, "PPP setup"),
        only_names(described(45, v), 0, "GPRS modem setup"),
        only_names(described(46, v), 0, "SMTP setup"),
{
    lemma_named(0, 12, 4, "Association SN", v);
    lemma_named(1, 19, 1, "IEC local port setup", v);
    lemma_named(2, 24, 1, "IEC twisted pair (1) setup", v);
    lemma_named(3, 25, 0, "M-Bus slave port setup", v);
    lemma_named(4, 26, 0, "Utility tables", v);
    lemma_named(5, 27, 1, "Modem configuration", v);
    lemma_named(6, 28, 2, "Auto answer", v);
    lemma_named(7, 29, 2, "Auto connect", v);
    lemma_named(8, 42, 0, "IPv4 setup", v);
    lemma_named(9, 43, 0, "MAC address setup", v);
    lemma_named(10, 44, 0, "PPP setup", v);
    lemma_named(11, 45, 0, "GPRS modem setup", v);
    lemma_named(12, 46, 0, "SMTP setup", v);
}

/// What classes 47 to 63 are called, where that is all that is told of them.
pub proof fn law_classes_47_to_63_are_named(v: u8)
    ensures
        only_names(described(47, v), 2, "GSM diagnostic"),
        only_names(described(48, v), 0, "IPv6 setup"),
        only_names(described(50, v), 1, "S-FSK Phy&MAC setup"),
        only_names(described(51, v), 0, "S-FSK Active initiator"),
        only_names(described(52, v), 0, "S-FSK MAC synchronization timeouts"),
        only_names(described(53, v), 0, "S-FSK MAC counters"),
        only_names(described(55, v), 1, "IEC 61334-4-32 LLC setup"),
        only_names(described(56, v), 0, "S-FSK Reporting system list"),
        only_names(described(57, v), 0, "ISO/IEC 8802-2 LLC Type 1 setup"),
        only_names(described(58, v), 0, "ISO/IEC 8802-2 LLC Type 2 setup"),
        only_names(described(59, v), 0, "ISO/IEC 8802-2 LLC Type 3 setup"),
        only_names(described(61, v), 0, "Register table"),
        only_names(described(63, v), 0, "Status mapping"),
{
    lemma_named(13, 47, 2, "GSM diagnostic", v);
    lemma_named(14, 48, 0, "IPv6 setup", v);
    lemma_named(15, 50, 1, "S-FSK Phy&MAC setup", v);
    lemma_named(16, 51, 0, "S-FSK Active initiator", v);
    lemma_named(17, 52, 0, "S-FSK MAC synchronization timeouts", v);
    lemma_named(18, 53, 0, "S-FSK MAC counters", v);
    lemma_named(19, 55, 1, "IEC 61334-4-32 LLC setup", v);
    lemma_named(20, 56, 0, "S-FSK Reporting system list", v);
    lemma_named(21, 57, 0, "ISO/IEC 8802-2 LLC Type 1 setup", v);
    lemma_named(22, 58, 0, "ISO/IEC 8802-2 LLC Type 2 setup", v);
    lemma_named(23, 59, 0, "ISO/IEC 8802-2 LLC Type 3 setup", v);
    lemma_named(24, 61, 0, "Register table", v);
    lemma_named(25, 63, 0, "Status mapping", v);
}

/// What classes 65 to 83 are called, where that is all that is told of them.
pub proof fn law_classes_65_to_83_are_named(v: u8)
    ensures
        only_names(described(65, v), 1, "Parameter monitor"),
        only_names(described(66, v), 0, "Measurement data monitoring"),
        only_names(described(67, v), 0, "Sensor manager"),
        only_names(described(68, v), 0, "Arbitrator"),
        only_names(described(72, v), 2, "M-Bus client"),
        only_names(described(73, v), 1, "Wireless Mode Q channel"),
        only_names(described(74, v), 0, "M-Bus master port setup"),
        only_names(described(76, v), 0, "DLMS server M-Bus port setup"),
        only_names(described(77, v), 0, "M-Bus diagnostic"),
        only_names(described(80, v), 0, "61334-4-32 LLC SSCS setup"),
        only_names(described(81, v), 0, "PRIME NB OFDM PLC Physical layer counters"),
        only_names(described(82, v), 0, "PRIME NB OFDM PLC MAC setup"),
        only_names(described(83, v), 0, "PRIME NB OFDM PLC MAC functional parameters"),
{
    lemma_named(26, 65, 1, "Parameter monitor", v);
    lemma_named(27, 66, 0, "Measurement data monitoring", v);
    lemma_named(28, 67, 0, "Sensor manager", v);
    lemma_named(29, 68, 0, "Arbitrator", v);
    lemma_named(30, 72, 2, "M-Bus client", v);
    lemma_named(31, 73, 1, "Wireless Mode Q channel", v);
    lemma_named(32, 74, 0, "M-Bus master port setup", v);
    lemma_named(33, 76, 0, "DLMS server M-Bus port setup", v);
    lemma_named(34, 77, 0, "M-Bus diagnostic", v);
    lemma_named(35, 80, 0, "61334-4-32 LLC SSCS setup", v);
    lemma_named(36, 81, 0, "PRIME NB OFDM PLC Physical layer counters", v);
    lemma_named(37, 82, 0, "PRIME NB OFDM PLC MAC setup", v);
    lemma_named(38, 83, 0, "PRIME NB OFDM PLC MAC functional parameters", v);
}

/// What classes 84 to 102 are called, where that is all that is told of them.
pub proof fn law_classes_84_to_102_are_named(v: u8)
    ensures
        only_names(described(84, v), 0, "PRIME NB OFDM PLC MAC counters"),
        only_names(described(85, v), 0, "PRIME NB OFDM PLC MAC network administration data"),
        only_names(described(86, v), 0, "PRIME NB OFDM PLC Application identification"),
        only_names(described(90, v), 1, "G3-PLC MAC layer counters"),
        only_names(described(91, v), 4, "G3-PLC MAC setup"),
        only_names(described(92, v), 4, "G3-PLC 6LoWPAN adaptation layer setup"),
        only_names(described(95, v), 0, "Wi-SUN setup"),
        only_names(described(96, v), 0, "Wi-SUN diagnostic"),
        only_names(described(97, v), 0, "RPL diagnostic"),
        only_names(described(98, v), 0, "MPL diagnostic"),
        only_names(described(100, v), 0, "NTP setup"),
        only_names(described(101, v), 0, "ZigBee SAS startup"),
        only_names(described(102, v), 0, "ZigBee SAS join"),
{
    lemma_named(39, 84, 0, "PRIME NB OFDM PLC MAC counters", v);
    lemma_named(40, 85, 0, "PRIME NB OFDM PLC MAC network administration data", v);
    lemma_named(41, 86, 0, "PRIME NB OFDM PLC Application identification", v);
    lemma_named(42, 90, 1, "G3-PLC MAC layer counters", v);
    lemma_named(43, 91, 4, "G3-PLC MAC setup", v);
    lemma_named(44, 92, 4, "G3-PLC 6LoWPAN adaptation layer setup", v);
    lemma_named(45, 95, 0, "Wi-SUN setup", v);
    lemma_named(46, 96, 0, "Wi-SUN diagnostic", v);
    lemma_named(47, 97, 0, "RPL diagnostic", v);
    lemma_named(48, 98, 0, "MPL diagnostic", v);
    lemma_named(49, 100, 0, "NTP setup", v);
    lemma_named(50, 101, 0, "ZigBee SAS startup", v);
    lemma_named(51, 102, 0, "ZigBee SAS join", v);
}

/// What classes 103 to 131 are called, where that is all that is told of them.
pub proof fn law_classes_103_to_131_are_named(v: u8)
    ensures
        only_names(described(103, v), 0, "ZigBee SAS APS fragmentation"),
        only_names(described(104, v), 0, "ZigBee network control"),
        only_names(described(105, v), 0, "ZigBee tunnel setup"),
        only_names(described(111, v), 0, "Account"),
        only_names(described(112, v), 0, "Credit"),
        only_names(described(113, v), 0, "Charge"),
        only_names(described(115, v), 0, "Token gateway"),
        only_names(described(116, v), 0, "IEC 62055-41 attributes"),
        only_names(described(122, v), 0, "Function control"),
        only_names(described(123, v), 0, "Array manager"),
        only_names(described(124, v), 0, "Communication port protection"),
        only_names(described(130, v), 0, "ISO/IEC 14908 identification"),
        only_names(described(131, v), 0, "ISO/IEC 14908 protocol setup"),
{
    lemma_named(52, 103, 0, "ZigBee SAS APS fragmentation", v);
    lemma_named(53, 104, 0, "ZigBee network control", v);
    lemma_named(54, 105, 0, "ZigBee tunnel setup", v);
    lemma_named(55, 111, 0, "Account", v);
    lemma_named(56, 112, 0, "Credit", v);
    lemma_named(57, 113, 0, "Charge", v);
    lemma_named(58, 115, 0, "Token gateway", v);
    lemma_named(59, 116, 0, "IEC 62055-41 attributes", v);
    lemma_named(60, 122, 0, "Function control", v);
    lemma_named(61, 123, 0, "Array manager", v);
    lemma_named(62, 124, 0, "Communication port protection", v);
    lemma_named(63, 130, 0, "ISO/IEC 14908 identification", v);
    lemma_named(64, 131, 0, "ISO/IEC 14908 protocol setup", v);
}

/// What classes 132 to 162 are called, where that is all that is told of them.
pub proof fn law_classes_132_to_162_are_named(v: u8)
    ensures
        only_names(described(132, v), 0, "ISO/IEC 14908 protocol status"),
        only_names(described(133, v), 0, "ISO/IEC 14908 diagnostic"),
        only_names(described(140, v), 0, "HS-PLC ISO/IEC 12139-1 MAC setup"),
        only_names(described(141, v), 0, "HS-PLC ISO/IEC 12139-1 CPAS setup"),
        only_names(described(142, v), 0, "HS-PLC ISO/IEC 12139-1 IP SSAS setup"),
        only_names(described(143, v), 0, "HS-PLC ISO/IEC 12139-1 HDLC SSAS setup"),
        only_names(described(151, v), 1, "LTE monitoring"),
        only_names(described(152, v), 0, "CoAP setup"),
        only_names(described(153, v), 0, "CoAP diagnostic"),
        only_names(described(160, v), 0, "G3-PLC Hybrid RF MAC layer counters"),
        only_names(described(161, v), 1, "G3-PLC Hybrid RF MAC setup"),
        only_names(described(162, v), 1, "G3-PLC Hybrid 6LoWPAN adaptation layer setup"),
{
    lemma_named(65, 132, 0, "ISO/IEC 14908 protocol status", v);
    lemma_named(66, 133, 0, "ISO/IEC 14908 diagnostic", v);
    lemma_named(67, 140, 0, "HS-PLC ISO/IEC 12139-1 MAC setup", v);
    lemma_named(68, 141, 0, "HS-PLC ISO/IEC 12139-1 CPAS setup", v);
    lemma_named(69, 142, 0, "HS-PLC ISO/IEC 12139-1 IP SSAS setup", v);
    lemma_named(70, 143, 0, "HS-PLC ISO/IEC 12139-1 HDLC SSAS setup", v);
    lemma_named(71, 151, 1, "LTE monitoring", v);
    lemma_named(72, 152, 0, "CoAP setup", v);
    lemma_named(73, 153, 0, "CoAP diagnostic", v);
    lemma_named(74, 160, 0, "G3-PLC Hybrid RF MAC layer counters", v);
    lemma_named(75, 161, 1, "G3-PLC Hybrid RF MAC setup", v);
    lemma_named(76, 162, 1, "G3-PLC Hybrid 6LoWPAN adaptation layer setup", v);
}

} // verus!
