//! The interface class tables.
//!
//! Classes are tabulated at two depths. The ones in general use carry their full
//! attribute and method lists; the rest carry a name and version so that a translator
//! can still label an object and a generic server can still host it, which is more than
//! refusing to decode it would give anyone.

#![allow(non_snake_case)]

use vstd::prelude::*;

use super::class::{
    AttrType, AttributeInfo, ClassDescriptor, DefaultAccess, InterfaceClass, MethodInfo,
};
#[allow(unused_imports)]
use super::class::{attribute, method, ClassV};

verus! {

/// A value with no semantics of its own beyond its logical name.
#[derive(Debug, Clone, Copy, PartialEq, Eq, Default)]
pub struct Data;

impl InterfaceClass for Data {
    const CLASS_ID: u16 = 1;

    const VERSION: u8 = 0;

    const NAME: &'static str = "Data";

    open spec fn class() -> ClassV {
        ClassV {
            class_id: 1,
            version: 0,
            name: "Data",
            attributes: seq![
                attribute(1, "logical_name", AttrType::ObisCode, DefaultAccess::Read),
                attribute(2, "value", AttrType::Any, DefaultAccess::ReadWrite),
            ],
            methods: Seq::empty(),
        }
    }

    fn descriptor() -> (r: ClassDescriptor) {
        let attributes: &'static [AttributeInfo] = [
            AttributeInfo {
                index: 1,
                name: "logical_name",
                ty: AttrType::ObisCode,
                access: DefaultAccess::Read,
            },
            AttributeInfo {
                index: 2,
                name: "value",
                ty: AttrType::Any,
                access: DefaultAccess::ReadWrite,
            },
        ].as_slice();
        let methods: &'static [MethodInfo] = [].as_slice();
        let r = ClassDescriptor {
            class_id: 1,
            version: 0,
            name: "Data",
            attributes,
            methods,
        };
        assert(r@ =~= Self::class());
        r
    }
}

/// A measured value with a scaler, a unit and a status.
#[derive(Debug, Clone, Copy, PartialEq, Eq, Default)]
pub struct Register;

impl InterfaceClass for Register {
    const CLASS_ID: u16 = 3;

    const VERSION: u8 = 0;

    const NAME: &'static str = "Register";

    open spec fn class() -> ClassV {
        ClassV {
            class_id: 3,
            version: 0,
            name: "Register",
            attributes: seq![
                attribute(1, "logical_name", AttrType::ObisCode, DefaultAccess::Read),
                attribute(2, "value", AttrType::Any, DefaultAccess::ReadWrite),
                attribute(3, "scaler_unit", AttrType::ScalerUnit, DefaultAccess::Read),
            ],
            methods: seq![
                method(1, "reset"),
            ],
        }
    }

    fn descriptor() -> (r: ClassDescriptor) {
        let attributes: &'static [AttributeInfo] = [
            AttributeInfo {
                index: 1,
                name: "logical_name",
                ty: AttrType::ObisCode,
                access: DefaultAccess::Read,
            },
            AttributeInfo {
                index: 2,
                name: "value",
                ty: AttrType::Any,
                access: DefaultAccess::ReadWrite,
            },
            AttributeInfo {
                index: 3,
                name: "scaler_unit",
                ty: AttrType::ScalerUnit,
                access: DefaultAccess::Read,
            },
        ].as_slice();
        let methods: &'static [MethodInfo] = [
            MethodInfo { index: 1, name: "reset" },
        ].as_slice();
        let r = ClassDescriptor {
            class_id: 3,
            version: 0,
            name: "Register",
            attributes,
            methods,
        };
        assert(r@ =~= Self::class());
        r
    }
}

/// A register that also captures the time and status of its value.
#[derive(Debug, Clone, Copy, PartialEq, Eq, Default)]
pub struct ExtendedRegister;

impl InterfaceClass for ExtendedRegister {
    const CLASS_ID: u16 = 4;

    const VERSION: u8 = 0;

    const NAME: &'static str = "Extended register";

    open spec fn class() -> ClassV {
        ClassV {
            class_id: 4,
            version: 0,
            name: "Extended register",
            attributes: seq![
                attribute(1, "logical_name", AttrType::ObisCode, DefaultAccess::Read),
                attribute(2, "value", AttrType::Any, DefaultAccess::ReadWrite),
                attribute(3, "scaler_unit", AttrType::ScalerUnit, DefaultAccess::Read),
                attribute(4, "status", AttrType::Any, DefaultAccess::Read),
                attribute(5, "capture_time", AttrType::DateTime, DefaultAccess::Read),
            ],
            methods: seq![
                method(1, "reset"),
            ],
        }
    }

    fn descriptor() -> (r: ClassDescriptor) {
        let attributes: &'static [AttributeInfo] = [
            AttributeInfo {
                index: 1,
                name: "logical_name",
                ty: AttrType::ObisCode,
                access: DefaultAccess::Read,
            },
            AttributeInfo {
                index: 2,
                name: "value",
                ty: AttrType::Any,
                access: DefaultAccess::ReadWrite,
            },
            AttributeInfo {
                index: 3,
                name: "scaler_unit",
                ty: AttrType::ScalerUnit,
                access: DefaultAccess::Read,
            },
            AttributeInfo {
                index: 4,
                name: "status",
                ty: AttrType::Any,
                access: DefaultAccess::Read,
            },
            AttributeInfo {
                index: 5,
                name: "capture_time",
                ty: AttrType::DateTime,
                access: DefaultAccess::Read,
            },
        ].as_slice();
        let methods: &'static [MethodInfo] = [
            MethodInfo { index: 1, name: "reset" },
        ].as_slice();
        let r = ClassDescriptor {
            class_id: 4,
            version: 0,
            name: "Extended register",
            attributes,
            methods,
        };
        assert(r@ =~= Self::class());
        r
    }
}

/// A register holding a demand value computed over a period.
#[derive(Debug, Clone, Copy, PartialEq, Eq, Default)]
pub struct DemandRegister;

impl InterfaceClass for DemandRegister {
    const CLASS_ID: u16 = 5;

    const VERSION: u8 = 0;

    const NAME: &'static str = "Demand register";

    open spec fn class() -> ClassV {
        ClassV {
            class_id: 5,
            version: 0,
            name: "Demand register",
            attributes: seq![
                attribute(1, "logical_name", AttrType::ObisCode, DefaultAccess::Read),
                attribute(2, "current_average_value", AttrType::Any, DefaultAccess::Read),
                attribute(3, "last_average_value", AttrType::Any, DefaultAccess::Read),
                attribute(4, "scaler_unit", AttrType::ScalerUnit, DefaultAccess::Read),
                attribute(5, "status", AttrType::Any, DefaultAccess::Read),
                attribute(6, "capture_time", AttrType::DateTime, DefaultAccess::Read),
                attribute(7, "start_time_current", AttrType::DateTime, DefaultAccess::Read),
                attribute(8, "period", AttrType::DoubleLongUnsigned, DefaultAccess::ReadWrite),
                attribute(9, "number_of_periods", AttrType::LongUnsigned, DefaultAccess::ReadWrite),
            ],
            methods: seq![
                method(1, "reset"),
                method(2, "next_period"),
            ],
        }
    }

    fn descriptor() -> (r: ClassDescriptor) {
        let attributes: &'static [AttributeInfo] = [
            AttributeInfo {
                index: 1,
                name: "logical_name",
                ty: AttrType::ObisCode,
                access: DefaultAccess::Read,
            },
            AttributeInfo {
                index: 2,
                name: "current_average_value",
                ty: AttrType::Any,
                access: DefaultAccess::Read,
            },
            AttributeInfo {
                index: 3,
                name: "last_average_value",
                ty: AttrType::Any,
                access: DefaultAccess::Read,
            },
            AttributeInfo {
                index: 4,
                name: "scaler_unit",
                ty: AttrType::ScalerUnit,
                access: DefaultAccess::Read,
            },
            AttributeInfo {
                index: 5,
                name: "status",
                ty: AttrType::Any,
                access: DefaultAccess::Read,
            },
            AttributeInfo {
                index: 6,
                name: "capture_time",
                ty: AttrType::DateTime,
                access: DefaultAccess::Read,
            },
            AttributeInfo {
                index: 7,
                name: "start_time_current",
                ty: AttrType::DateTime,
                access: DefaultAccess::Read,
            },
            AttributeInfo {
                index: 8,
                name: "period",
                ty: AttrType::DoubleLongUnsigned,
                access: DefaultAccess::ReadWrite,
            },
            AttributeInfo {
                index: 9,
                name: "number_of_periods",
                ty: AttrType::LongUnsigned,
                access: DefaultAccess::ReadWrite,
            },
        ].as_slice();
        let methods: &'static [MethodInfo] = [
            MethodInfo { index: 1, name: "reset" },
            MethodInfo { index: 2, name: "next_period" },
        ].as_slice();
        let r = ClassDescriptor {
            class_id: 5,
            version: 0,
            name: "Demand register",
            attributes,
            methods,
        };
        assert(r@ =~= Self::class());
        r
    }
}

/// Switches a set of registers between tariff rates.
#[derive(Debug, Clone, Copy, PartialEq, Eq, Default)]
pub struct RegisterActivation;

impl InterfaceClass for RegisterActivation {
    const CLASS_ID: u16 = 6;

    const VERSION: u8 = 0;

    const NAME: &'static str = "Register activation";

    open spec fn class() -> ClassV {
        ClassV {
            class_id: 6,
            version: 0,
            name: "Register activation",
            attributes: seq![
                attribute(1, "logical_name", AttrType::ObisCode, DefaultAccess::Read),
                attribute(2, "register_assignment", AttrType::Array, DefaultAccess::ReadWrite),
                attribute(3, "mask_list", AttrType::Array, DefaultAccess::ReadWrite),
                attribute(4, "active_mask", AttrType::OctetString, DefaultAccess::Read),
            ],
            methods: seq![
                method(1, "add_register"),
                method(2, "add_mask"),
                method(3, "delete_mask"),
            ],
        }
    }

    fn descriptor() -> (r: ClassDescriptor) {
        let attributes: &'static [AttributeInfo] = [
            AttributeInfo {
                index: 1,
                name: "logical_name",
                ty: AttrType::ObisCode,
                access: DefaultAccess::Read,
            },
            AttributeInfo {
                index: 2,
                name: "register_assignment",
                ty: AttrType::Array,
                access: DefaultAccess::ReadWrite,
            },
            AttributeInfo {
                index: 3,
                name: "mask_list",
                ty: AttrType::Array,
                access: DefaultAccess::ReadWrite,
            },
            AttributeInfo {
                index: 4,
                name: "active_mask",
                ty: AttrType::OctetString,
                access: DefaultAccess::Read,
            },
        ].as_slice();
        let methods: &'static [MethodInfo] = [
            MethodInfo { index: 1, name: "add_register" },
            MethodInfo { index: 2, name: "add_mask" },
            MethodInfo { index: 3, name: "delete_mask" },
        ].as_slice();
        let r = ClassDescriptor {
            class_id: 6,
            version: 0,
            name: "Register activation",
            attributes,
            methods,
        };
        assert(r@ =~= Self::class());
        r
    }
}

/// A buffer of captured rows: the load profile, the event log, the billing profile.
#[derive(Debug, Clone, Copy, PartialEq, Eq, Default)]
pub struct ProfileGeneric;

impl InterfaceClass for ProfileGeneric {
    const CLASS_ID: u16 = 7;

    const VERSION: u8 = 1;

    const NAME: &'static str = "Profile generic";

    open spec fn class() -> ClassV {
        ClassV {
            class_id: 7,
            version: 1,
            name: "Profile generic",
            attributes: seq![
                attribute(1, "logical_name", AttrType::ObisCode, DefaultAccess::Read),
                attribute(2, "buffer", AttrType::Array, DefaultAccess::ReadWrite),
                attribute(3, "capture_objects", AttrType::Array, DefaultAccess::ReadWrite),
                attribute(4, "capture_period", AttrType::DoubleLongUnsigned, DefaultAccess::ReadWrite),
                attribute(5, "sort_method", AttrType::Enum, DefaultAccess::ReadWrite),
                attribute(6, "sort_object", AttrType::Structure, DefaultAccess::ReadWrite),
                attribute(7, "entries_in_use", AttrType::DoubleLongUnsigned, DefaultAccess::Read),
                attribute(8, "profile_entries", AttrType::DoubleLongUnsigned, DefaultAccess::ReadWrite),
            ],
            methods: seq![
                method(1, "reset"),
                method(2, "capture"),
            ],
        }
    }

    fn descriptor() -> (r: ClassDescriptor) {
        let attributes: &'static [AttributeInfo] = [
            AttributeInfo {
                index: 1,
                name: "logical_name",
                ty: AttrType::ObisCode,
                access: DefaultAccess::Read,
            },
            AttributeInfo {
                index: 2,
                name: "buffer",
                ty: AttrType::Array,
                access: DefaultAccess::ReadWrite,
            },
            AttributeInfo {
                index: 3,
                name: "capture_objects",
                ty: AttrType::Array,
                access: DefaultAccess::ReadWrite,
            },
            AttributeInfo {
                index: 4,
                name: "capture_period",
                ty: AttrType::DoubleLongUnsigned,
                access: DefaultAccess::ReadWrite,
            },
            AttributeInfo {
                index: 5,
                name: "sort_method",
                ty: AttrType::Enum,
                access: DefaultAccess::ReadWrite,
            },
            AttributeInfo {
                index: 6,
                name: "sort_object",
                ty: AttrType::Structure,
                access: DefaultAccess::ReadWrite,
            },
            AttributeInfo {
                index: 7,
                name: "entries_in_use",
                ty: AttrType::DoubleLongUnsigned,
                access: DefaultAccess::Read,
            },
            AttributeInfo {
                index: 8,
                name: "profile_entries",
                ty: AttrType::DoubleLongUnsigned,
                access: DefaultAccess::ReadWrite,
            },
        ].as_slice();
        let methods: &'static [MethodInfo] = [
            MethodInfo { index: 1, name: "reset" },
            MethodInfo { index: 2, name: "capture" },
        ].as_slice();
        let r = ClassDescriptor {
            class_id: 7,
            version: 1,
            name: "Profile generic",
            attributes,
            methods,
        };
        assert(r@ =~= Self::class());
        r
    }
}

/// The meter's clock, its time zone and its daylight-saving rules.
#[derive(Debug, Clone, Copy, PartialEq, Eq, Default)]
pub struct Clock;

impl InterfaceClass for Clock {
    const CLASS_ID: u16 = 8;

    const VERSION: u8 = 0;

    const NAME: &'static str = "Clock";

    open spec fn class() -> ClassV {
        ClassV {
            class_id: 8,
            version: 0,
            name: "Clock",
            attributes: seq![
                attribute(1, "logical_name", AttrType::ObisCode, DefaultAccess::Read),
                attribute(2, "time", AttrType::DateTime, DefaultAccess::ReadWrite),
                attribute(3, "time_zone", AttrType::Long, DefaultAccess::ReadWrite),
                attribute(4, "status", AttrType::Unsigned, DefaultAccess::Read),
                attribute(5, "daylight_savings_begin", AttrType::DateTime, DefaultAccess::ReadWrite),
                attribute(6, "daylight_savings_end", AttrType::DateTime, DefaultAccess::ReadWrite),
                attribute(7, "daylight_savings_deviation", AttrType::Integer, DefaultAccess::ReadWrite),
                attribute(8, "daylight_savings_enabled", AttrType::Boolean, DefaultAccess::ReadWrite),
                attribute(9, "clock_base", AttrType::Enum, DefaultAccess::ReadWrite),
            ],
            methods: seq![
                method(1, "adjust_to_quarter"),
                method(2, "adjust_to_measuring_period"),
                method(3, "adjust_to_minute"),
                method(4, "adjust_to_preset_time"),
                method(5, "preset_adjusting_time"),
                method(6, "shift_time"),
            ],
        }
    }

    fn descriptor() -> (r: ClassDescriptor) {
        let attributes: &'static [AttributeInfo] = [
            AttributeInfo {
                index: 1,
                name: "logical_name",
                ty: AttrType::ObisCode,
                access: DefaultAccess::Read,
            },
            AttributeInfo {
                index: 2,
                name: "time",
                ty: AttrType::DateTime,
                access: DefaultAccess::ReadWrite,
            },
            AttributeInfo {
                index: 3,
                name: "time_zone",
                ty: AttrType::Long,
                access: DefaultAccess::ReadWrite,
            },
            AttributeInfo {
                index: 4,
                name: "status",
                ty: AttrType::Unsigned,
                access: DefaultAccess::Read,
            },
            AttributeInfo {
                index: 5,
                name: "daylight_savings_begin",
                ty: AttrType::DateTime,
                access: DefaultAccess::ReadWrite,
            },
            AttributeInfo {
                index: 6,
                name: "daylight_savings_end",
                ty: AttrType::DateTime,
                access: DefaultAccess::ReadWrite,
            },
            AttributeInfo {
                index: 7,
                name: "daylight_savings_deviation",
                ty: AttrType::Integer,
                access: DefaultAccess::ReadWrite,
            },
            AttributeInfo {
                index: 8,
                name: "daylight_savings_enabled",
                ty: AttrType::Boolean,
                access: DefaultAccess::ReadWrite,
            },
            AttributeInfo {
                index: 9,
                name: "clock_base",
                ty: AttrType::Enum,
                access: DefaultAccess::ReadWrite,
            },
        ].as_slice();
        let methods: &'static [MethodInfo] = [
            MethodInfo { index: 1, name: "adjust_to_quarter" },
            MethodInfo { index: 2, name: "adjust_to_measuring_period" },
            MethodInfo { index: 3, name: "adjust_to_minute" },
            MethodInfo { index: 4, name: "adjust_to_preset_time" },
            MethodInfo { index: 5, name: "preset_adjusting_time" },
            MethodInfo { index: 6, name: "shift_time" },
        ].as_slice();
        let r = ClassDescriptor {
            class_id: 8,
            version: 0,
            name: "Clock",
            attributes,
            methods,
        };
        assert(r@ =~= Self::class());
        r
    }
}

/// Named sequences of actions other objects can trigger.
#[derive(Debug, Clone, Copy, PartialEq, Eq, Default)]
pub struct ScriptTable;

impl InterfaceClass for ScriptTable {
    const CLASS_ID: u16 = 9;

    const VERSION: u8 = 0;

    const NAME: &'static str = "Script table";

    open spec fn class() -> ClassV {
        ClassV {
            class_id: 9,
            version: 0,
            name: "Script table",
            attributes: seq![
                attribute(1, "logical_name", AttrType::ObisCode, DefaultAccess::Read),
                attribute(2, "scripts", AttrType::Array, DefaultAccess::ReadWrite),
            ],
            methods: seq![
                method(1, "execute"),
            ],
        }
    }

    fn descriptor() -> (r: ClassDescriptor) {
        let attributes: &'static [AttributeInfo] = [
            AttributeInfo {
                index: 1,
                name: "logical_name",
                ty: AttrType::ObisCode,
                access: DefaultAccess::Read,
            },
            AttributeInfo {
                index: 2,
                name: "scripts",
                ty: AttrType::Array,
                access: DefaultAccess::ReadWrite,
            },
        ].as_slice();
        let methods: &'static [MethodInfo] = [
            MethodInfo { index: 1, name: "execute" },
        ].as_slice();
        let r = ClassDescriptor {
            class_id: 9,
            version: 0,
            name: "Script table",
            attributes,
            methods,
        };
        assert(r@ =~= Self::class());
        r
    }
}

/// Times at which scripts run.
#[derive(Debug, Clone, Copy, PartialEq, Eq, Default)]
pub struct Schedule;

impl InterfaceClass for Schedule {
    const CLASS_ID: u16 = 10;

    const VERSION: u8 = 0;

    const NAME: &'static str = "Schedule";

    open spec fn class() -> ClassV {
        ClassV {
            class_id: 10,
            version: 0,
            name: "Schedule",
            attributes: seq![
                attribute(1, "logical_name", AttrType::ObisCode, DefaultAccess::Read),
                attribute(2, "entries", AttrType::Array, DefaultAccess::ReadWrite),
            ],
            methods: seq![
                method(1, "enable_disable"),
                method(2, "insert"),
                method(3, "delete"),
            ],
        }
    }

    fn descriptor() -> (r: ClassDescriptor) {
        let attributes: &'static [AttributeInfo] = [
            AttributeInfo {
                index: 1,
                name: "logical_name",
                ty: AttrType::ObisCode,
                access: DefaultAccess::Read,
            },
            AttributeInfo {
                index: 2,
                name: "entries",
                ty: AttrType::Array,
                access: DefaultAccess::ReadWrite,
            },
        ].as_slice();
        let methods: &'static [MethodInfo] = [
            MethodInfo { index: 1, name: "enable_disable" },
            MethodInfo { index: 2, name: "insert" },
            MethodInfo { index: 3, name: "delete" },
        ].as_slice();
        let r = ClassDescriptor {
            class_id: 10,
            version: 0,
            name: "Schedule",
            attributes,
            methods,
        };
        assert(r@ =~= Self::class());
        r
    }
}

/// Dates on which a different day profile applies.
#[derive(Debug, Clone, Copy, PartialEq, Eq, Default)]
pub struct SpecialDaysTable;

impl InterfaceClass for SpecialDaysTable {
    const CLASS_ID: u16 = 11;

    const VERSION: u8 = 0;

    const NAME: &'static str = "Special days table";

    open spec fn class() -> ClassV {
        ClassV {
            class_id: 11,
            version: 0,
            name: "Special days table",
            attributes: seq![
                attribute(1, "logical_name", AttrType::ObisCode, DefaultAccess::Read),
                attribute(2, "entries", AttrType::Array, DefaultAccess::ReadWrite),
            ],
            methods: seq![
                method(1, "insert"),
                method(2, "delete"),
            ],
        }
    }

    fn descriptor() -> (r: ClassDescriptor) {
        let attributes: &'static [AttributeInfo] = [
            AttributeInfo {
                index: 1,
                name: "logical_name",
                ty: AttrType::ObisCode,
                access: DefaultAccess::Read,
            },
            AttributeInfo {
                index: 2,
                name: "entries",
                ty: AttrType::Array,
                access: DefaultAccess::ReadWrite,
            },
        ].as_slice();
        let methods: &'static [MethodInfo] = [
            MethodInfo { index: 1, name: "insert" },
            MethodInfo { index: 2, name: "delete" },
        ].as_slice();
        let r = ClassDescriptor {
            class_id: 11,
            version: 0,
            name: "Special days table",
            attributes,
            methods,
        };
        assert(r@ =~= Self::class());
        r
    }
}

/// The objects and access rights of an association, addressed by logical name.
#[derive(Debug, Clone, Copy, PartialEq, Eq, Default)]
pub struct AssociationLn;

impl InterfaceClass for AssociationLn {
    const CLASS_ID: u16 = 15;

    const VERSION: u8 = 3;

    const NAME: &'static str = "Association LN";

    open spec fn class() -> ClassV {
        ClassV {
            class_id: 15,
            version: 3,
            name: "Association LN",
            attributes: seq![
                attribute(1, "logical_name", AttrType::ObisCode, DefaultAccess::Read),
                attribute(2, "object_list", AttrType::Array, DefaultAccess::Read),
                attribute(3, "associated_partners_id", AttrType::Structure, DefaultAccess::Read),
                attribute(4, "application_context_name", AttrType::OctetString, DefaultAccess::Read),
                attribute(5, "xdlms_context_info", AttrType::Structure, DefaultAccess::Read),
                attribute(6, "authentication_mechanism_name", AttrType::OctetString, DefaultAccess::Read),
                attribute(7, "secret", AttrType::OctetString, DefaultAccess::Write),
                attribute(8, "association_status", AttrType::Enum, DefaultAccess::Read),
                attribute(9, "security_setup_reference", AttrType::ObisCode, DefaultAccess::Read),
                attribute(10, "user_list", AttrType::Array, DefaultAccess::ReadWrite),
                attribute(11, "current_user", AttrType::Structure, DefaultAccess::Read),
            ],
            methods: seq![
                method(1, "reply_to_hls_authentication"),
                method(2, "change_hls_secret"),
                method(3, "add_object"),
                method(4, "remove_object"),
                method(5, "add_user"),
                method(6, "remove_user"),
            ],
        }
    }

    fn descriptor() -> (r: ClassDescriptor) {
        let attributes: &'static [AttributeInfo] = [
            AttributeInfo {
                index: 1,
                name: "logical_name",
                ty: AttrType::ObisCode,
                access: DefaultAccess::Read,
            },
            AttributeInfo {
                index: 2,
                name: "object_list",
                ty: AttrType::Array,
                access: DefaultAccess::Read,
            },
            AttributeInfo {
                index: 3,
                name: "associated_partners_id",
                ty: AttrType::Structure,
                access: DefaultAccess::Read,
            },
            AttributeInfo {
                index: 4,
                name: "application_context_name",
                ty: AttrType::OctetString,
                access: DefaultAccess::Read,
            },
            AttributeInfo {
                index: 5,
                name: "xdlms_context_info",
                ty: AttrType::Structure,
                access: DefaultAccess::Read,
            },
            AttributeInfo {
                index: 6,
                name: "authentication_mechanism_name",
                ty: AttrType::OctetString,
                access: DefaultAccess::Read,
            },
            AttributeInfo {
                index: 7,
                name: "secret",
                ty: AttrType::OctetString,
                access: DefaultAccess::Write,
            },
            AttributeInfo {
                index: 8,
                name: "association_status",
                ty: AttrType::Enum,
                access: DefaultAccess::Read,
            },
            AttributeInfo {
                index: 9,
                name: "security_setup_reference",
                ty: AttrType::ObisCode,
                access: DefaultAccess::Read,
            },
            AttributeInfo {
                index: 10,
                name: "user_list",
                ty: AttrType::Array,
                access: DefaultAccess::ReadWrite,
            },
            AttributeInfo {
                index: 11,
                name: "current_user",
                ty: AttrType::Structure,
                access: DefaultAccess::Read,
            },
        ].as_slice();
        let methods: &'static [MethodInfo] = [
            MethodInfo { index: 1, name: "reply_to_hls_authentication" },
            MethodInfo { index: 2, name: "change_hls_secret" },
            MethodInfo { index: 3, name: "add_object" },
            MethodInfo { index: 4, name: "remove_object" },
            MethodInfo { index: 5, name: "add_user" },
            MethodInfo { index: 6, name: "remove_user" },
        ].as_slice();
        let r = ClassDescriptor {
            class_id: 15,
            version: 3,
            name: "Association LN",
            attributes,
            methods,
        };
        assert(r@ =~= Self::class());
        r
    }
}

/// Which logical device answers on which service access point.
#[derive(Debug, Clone, Copy, PartialEq, Eq, Default)]
pub struct SapAssignment;

impl InterfaceClass for SapAssignment {
    const CLASS_ID: u16 = 17;

    const VERSION: u8 = 0;

    const NAME: &'static str = "SAP assignment";

    open spec fn class() -> ClassV {
        ClassV {
            class_id: 17,
            version: 0,
            name: "SAP assignment",
            attributes: seq![
                attribute(1, "logical_name", AttrType::ObisCode, DefaultAccess::Read),
                attribute(2, "sap_assignment_list", AttrType::Array, DefaultAccess::Read),
            ],
            methods: seq![
                method(1, "connect_logical_device"),
            ],
        }
    }

    fn descriptor() -> (r: ClassDescriptor) {
        let attributes: &'static [AttributeInfo] = [
            AttributeInfo {
                index: 1,
                name: "logical_name",
                ty: AttrType::ObisCode,
                access: DefaultAccess::Read,
            },
            AttributeInfo {
                index: 2,
                name: "sap_assignment_list",
                ty: AttrType::Array,
                access: DefaultAccess::Read,
            },
        ].as_slice();
        let methods: &'static [MethodInfo] = [
            MethodInfo { index: 1, name: "connect_logical_device" },
        ].as_slice();
        let r = ClassDescriptor {
            class_id: 17,
            version: 0,
            name: "SAP assignment",
            attributes,
            methods,
        };
        assert(r@ =~= Self::class());
        r
    }
}

/// Firmware update: transfer an image in blocks, verify it, then activate it.
#[derive(Debug, Clone, Copy, PartialEq, Eq, Default)]
pub struct ImageTransfer;

impl InterfaceClass for ImageTransfer {
    const CLASS_ID: u16 = 18;

    const VERSION: u8 = 0;

    const NAME: &'static str = "Image transfer";

    open spec fn class() -> ClassV {
        ClassV {
            class_id: 18,
            version: 0,
            name: "Image transfer",
            attributes: seq![
                attribute(1, "logical_name", AttrType::ObisCode, DefaultAccess::Read),
                attribute(2, "image_block_size", AttrType::DoubleLongUnsigned, DefaultAccess::Read),
                attribute(3, "image_transferred_blocks_status", AttrType::BitString, DefaultAccess::Read),
                attribute(4, "image_first_not_transferred_block_number", AttrType::DoubleLongUnsigned, DefaultAccess::Read),
                attribute(5, "image_transfer_enabled", AttrType::Boolean, DefaultAccess::ReadWrite),
                attribute(6, "image_transfer_status", AttrType::Enum, DefaultAccess::Read),
                attribute(7, "image_to_activate_info", AttrType::Array, DefaultAccess::Read),
            ],
            methods: seq![
                method(1, "image_transfer_initiate"),
                method(2, "image_block_transfer"),
                method(3, "image_verify"),
                method(4, "image_activate"),
            ],
        }
    }

    fn descriptor() -> (r: ClassDescriptor) {
        let attributes: &'static [AttributeInfo] = [
            AttributeInfo {
                index: 1,
                name: "logical_name",
                ty: AttrType::ObisCode,
                access: DefaultAccess::Read,
            },
            AttributeInfo {
                index: 2,
                name: "image_block_size",
                ty: AttrType::DoubleLongUnsigned,
                access: DefaultAccess::Read,
            },
            AttributeInfo {
                index: 3,
                name: "image_transferred_blocks_status",
                ty: AttrType::BitString,
                access: DefaultAccess::Read,
            },
            AttributeInfo {
                index: 4,
                name: "image_first_not_transferred_block_number",
                ty: AttrType::DoubleLongUnsigned,
                access: DefaultAccess::Read,
            },
            AttributeInfo {
                index: 5,
                name: "image_transfer_enabled",
                ty: AttrType::Boolean,
                access: DefaultAccess::ReadWrite,
            },
            AttributeInfo {
                index: 6,
                name: "image_transfer_status",
                ty: AttrType::Enum,
                access: DefaultAccess::Read,
            },
            AttributeInfo {
                index: 7,
                name: "image_to_activate_info",
                ty: AttrType::Array,
                access: DefaultAccess::Read,
            },
        ].as_slice();
        let methods: &'static [MethodInfo] = [
            MethodInfo { index: 1, name: "image_transfer_initiate" },
            MethodInfo { index: 2, name: "image_block_transfer" },
            MethodInfo { index: 3, name: "image_verify" },
            MethodInfo { index: 4, name: "image_activate" },
        ].as_slice();
        let r = ClassDescriptor {
            class_id: 18,
            version: 0,
            name: "Image transfer",
            attributes,
            methods,
        };
        assert(r@ =~= Self::class());
        r
    }
}

/// The tariff calendar: seasons, weeks and day profiles.
#[derive(Debug, Clone, Copy, PartialEq, Eq, Default)]
pub struct ActivityCalendar;

impl InterfaceClass for ActivityCalendar {
    const CLASS_ID: u16 = 20;

    const VERSION: u8 = 0;

    const NAME: &'static str = "Activity calendar";

    open spec fn class() -> ClassV {
        ClassV {
            class_id: 20,
            version: 0,
            name: "Activity calendar",
            attributes: seq![
                attribute(1, "logical_name", AttrType::ObisCode, DefaultAccess::Read),
                attribute(2, "calendar_name_active", AttrType::OctetString, DefaultAccess::Read),
                attribute(3, "season_profile_active", AttrType::Array, DefaultAccess::Read),
                attribute(4, "week_profile_table_active", AttrType::Array, DefaultAccess::Read),
                attribute(5, "day_profile_table_active", AttrType::Array, DefaultAccess::Read),
                attribute(6, "calendar_name_passive", AttrType::OctetString, DefaultAccess::ReadWrite),
                attribute(7, "season_profile_passive", AttrType::Array, DefaultAccess::ReadWrite),
                attribute(8, "week_profile_table_passive", AttrType::Array, DefaultAccess::ReadWrite),
                attribute(9, "day_profile_table_passive", AttrType::Array, DefaultAccess::ReadWrite),
                attribute(10, "activate_passive_calendar_time", AttrType::DateTime, DefaultAccess::ReadWrite),
            ],
            methods: seq![
                method(1, "activate_passive_calendar"),
            ],
        }
    }

    fn descriptor() -> (r: ClassDescriptor) {
        let attributes: &'static [AttributeInfo] = [
            AttributeInfo {
                index: 1,
                name: "logical_name",
                ty: AttrType::ObisCode,
                access: DefaultAccess::Read,
            },
            AttributeInfo {
                index: 2,
                name: "calendar_name_active",
                ty: AttrType::OctetString,
                access: DefaultAccess::Read,
            },
            AttributeInfo {
                index: 3,
                name: "season_profile_active",
                ty: AttrType::Array,
                access: DefaultAccess::Read,
            },
            AttributeInfo {
                index: 4,
                name: "week_profile_table_active",
                ty: AttrType::Array,
                access: DefaultAccess::Read,
            },
            AttributeInfo {
                index: 5,
                name: "day_profile_table_active",
                ty: AttrType::Array,
                access: DefaultAccess::Read,
            },
            AttributeInfo {
                index: 6,
                name: "calendar_name_passive",
                ty: AttrType::OctetString,
                access: DefaultAccess::ReadWrite,
            },
            AttributeInfo {
                index: 7,
                name: "season_profile_passive",
                ty: AttrType::Array,
                access: DefaultAccess::ReadWrite,
            },
            AttributeInfo {
                index: 8,
                name: "week_profile_table_passive",
                ty: AttrType::Array,
                access: DefaultAccess::ReadWrite,
            },
            AttributeInfo {
                index: 9,
                name: "day_profile_table_passive",
                ty: AttrType::Array,
                access: DefaultAccess::ReadWrite,
            },
            AttributeInfo {
                index: 10,
                name: "activate_passive_calendar_time",
                ty: AttrType::DateTime,
                access: DefaultAccess::ReadWrite,
            },
        ].as_slice();
        let methods: &'static [MethodInfo] = [
            MethodInfo { index: 1, name: "activate_passive_calendar" },
        ].as_slice();
        let r = ClassDescriptor {
            class_id: 20,
            version: 0,
            name: "Activity calendar",
            attributes,
            methods,
        };
        assert(r@ =~= Self::class());
        r
    }
}

/// Watches a value and runs a script when it crosses a threshold.
#[derive(Debug, Clone, Copy, PartialEq, Eq, Default)]
pub struct RegisterMonitor;

impl InterfaceClass for RegisterMonitor {
    const CLASS_ID: u16 = 21;

    const VERSION: u8 = 0;

    const NAME: &'static str = "Register monitor";

    open spec fn class() -> ClassV {
        ClassV {
            class_id: 21,
            version: 0,
            name: "Register monitor",
            attributes: seq![
                attribute(1, "logical_name", AttrType::ObisCode, DefaultAccess::Read),
                attribute(2, "thresholds", AttrType::Array, DefaultAccess::ReadWrite),
                attribute(3, "monitored_value", AttrType::Structure, DefaultAccess::ReadWrite),
                attribute(4, "actions", AttrType::Array, DefaultAccess::ReadWrite),
            ],
            methods: Seq::empty(),
        }
    }

    fn descriptor() -> (r: ClassDescriptor) {
        let attributes: &'static [AttributeInfo] = [
            AttributeInfo {
                index: 1,
                name: "logical_name",
                ty: AttrType::ObisCode,
                access: DefaultAccess::Read,
            },
            AttributeInfo {
                index: 2,
                name: "thresholds",
                ty: AttrType::Array,
                access: DefaultAccess::ReadWrite,
            },
            AttributeInfo {
                index: 3,
                name: "monitored_value",
                ty: AttrType::Structure,
                access: DefaultAccess::ReadWrite,
            },
            AttributeInfo {
                index: 4,
                name: "actions",
                ty: AttrType::Array,
                access: DefaultAccess::ReadWrite,
            },
        ].as_slice();
        let methods: &'static [MethodInfo] = [].as_slice();
        let r = ClassDescriptor {
            class_id: 21,
            version: 0,
            name: "Register monitor",
            attributes,
            methods,
        };
        assert(r@ =~= Self::class());
        r
    }
}

/// Runs one script at one time.
#[derive(Debug, Clone, Copy, PartialEq, Eq, Default)]
pub struct SingleActionSchedule;

impl InterfaceClass for SingleActionSchedule {
    const CLASS_ID: u16 = 22;

    const VERSION: u8 = 0;

    const NAME: &'static str = "Single action schedule";

    open spec fn class() -> ClassV {
        ClassV {
            class_id: 22,
            version: 0,
            name: "Single action schedule",
            attributes: seq![
                attribute(1, "logical_name", AttrType::ObisCode, DefaultAccess::Read),
                attribute(2, "executed_script", AttrType::Structure, DefaultAccess::ReadWrite),
                attribute(3, "type", AttrType::Enum, DefaultAccess::ReadWrite),
                attribute(4, "execution_time", AttrType::Array, DefaultAccess::ReadWrite),
            ],
            methods: Seq::empty(),
        }
    }

    fn descriptor() -> (r: ClassDescriptor) {
        let attributes: &'static [AttributeInfo] = [
            AttributeInfo {
                index: 1,
                name: "logical_name",
                ty: AttrType::ObisCode,
                access: DefaultAccess::Read,
            },
            AttributeInfo {
                index: 2,
                name: "executed_script",
                ty: AttrType::Structure,
                access: DefaultAccess::ReadWrite,
            },
            AttributeInfo {
                index: 3,
                name: "type",
                ty: AttrType::Enum,
                access: DefaultAccess::ReadWrite,
            },
            AttributeInfo {
                index: 4,
                name: "execution_time",
                ty: AttrType::Array,
                access: DefaultAccess::ReadWrite,
            },
        ].as_slice();
        let methods: &'static [MethodInfo] = [].as_slice();
        let r = ClassDescriptor {
            class_id: 22,
            version: 0,
            name: "Single action schedule",
            attributes,
            methods,
        };
        assert(r@ =~= Self::class());
        r
    }
}

/// The HDLC link's addresses and timeouts.
#[derive(Debug, Clone, Copy, PartialEq, Eq, Default)]
pub struct IecHdlcSetup;

impl InterfaceClass for IecHdlcSetup {
    const CLASS_ID: u16 = 23;

    const VERSION: u8 = 1;

    const NAME: &'static str = "IEC HDLC setup";

    open spec fn class() -> ClassV {
        ClassV {
            class_id: 23,
            version: 1,
            name: "IEC HDLC setup",
            attributes: seq![
                attribute(1, "logical_name", AttrType::ObisCode, DefaultAccess::Read),
                attribute(2, "comm_speed", AttrType::Enum, DefaultAccess::ReadWrite),
                attribute(3, "window_size_transmit", AttrType::Unsigned, DefaultAccess::ReadWrite),
                attribute(4, "window_size_receive", AttrType::Unsigned, DefaultAccess::ReadWrite),
                attribute(5, "max_info_field_length_transmit", AttrType::LongUnsigned, DefaultAccess::ReadWrite),
                attribute(6, "max_info_field_length_receive", AttrType::LongUnsigned, DefaultAccess::ReadWrite),
                attribute(7, "inter_octet_time_out", AttrType::LongUnsigned, DefaultAccess::ReadWrite),
                attribute(8, "inactivity_time_out", AttrType::LongUnsigned, DefaultAccess::ReadWrite),
                attribute(9, "device_address", AttrType::LongUnsigned, DefaultAccess::Read),
            ],
            methods: Seq::empty(),
        }
    }

    fn descriptor() -> (r: ClassDescriptor) {
        let attributes: &'static [AttributeInfo] = [
            AttributeInfo {
                index: 1,
                name: "logical_name",
                ty: AttrType::ObisCode,
                access: DefaultAccess::Read,
            },
            AttributeInfo {
                index: 2,
                name: "comm_speed",
                ty: AttrType::Enum,
                access: DefaultAccess::ReadWrite,
            },
            AttributeInfo {
                index: 3,
                name: "window_size_transmit",
                ty: AttrType::Unsigned,
                access: DefaultAccess::ReadWrite,
            },
            AttributeInfo {
                index: 4,
                name: "window_size_receive",
                ty: AttrType::Unsigned,
                access: DefaultAccess::ReadWrite,
            },
            AttributeInfo {
                index: 5,
                name: "max_info_field_length_transmit",
                ty: AttrType::LongUnsigned,
                access: DefaultAccess::ReadWrite,
            },
            AttributeInfo {
                index: 6,
                name: "max_info_field_length_receive",
                ty: AttrType::LongUnsigned,
                access: DefaultAccess::ReadWrite,
            },
            AttributeInfo {
                index: 7,
                name: "inter_octet_time_out",
                ty: AttrType::LongUnsigned,
                access: DefaultAccess::ReadWrite,
            },
            AttributeInfo {
                index: 8,
                name: "inactivity_time_out",
                ty: AttrType::LongUnsigned,
                access: DefaultAccess::ReadWrite,
            },
            AttributeInfo {
                index: 9,
                name: "device_address",
                ty: AttrType::LongUnsigned,
                access: DefaultAccess::Read,
            },
        ].as_slice();
        let methods: &'static [MethodInfo] = [].as_slice();
        let r = ClassDescriptor {
            class_id: 23,
            version: 1,
            name: "IEC HDLC setup",
            attributes,
            methods,
        };
        assert(r@ =~= Self::class());
        r
    }
}

/// Where a value is captured to, and how a display is composed.
#[derive(Debug, Clone, Copy, PartialEq, Eq, Default)]
pub struct CompactData;

impl InterfaceClass for CompactData {
    const CLASS_ID: u16 = 62;

    const VERSION: u8 = 1;

    const NAME: &'static str = "Compact data";

    open spec fn class() -> ClassV {
        ClassV {
            class_id: 62,
            version: 1,
            name: "Compact data",
            attributes: seq![
                attribute(1, "logical_name", AttrType::ObisCode, DefaultAccess::Read),
                attribute(2, "buffer", AttrType::OctetString, DefaultAccess::Read),
                attribute(3, "capture_objects", AttrType::Array, DefaultAccess::ReadWrite),
                attribute(4, "template_id", AttrType::Unsigned, DefaultAccess::ReadWrite),
                attribute(5, "template_description", AttrType::OctetString, DefaultAccess::Read),
                attribute(6, "capture_method", AttrType::Enum, DefaultAccess::ReadWrite),
            ],
            methods: seq![
                method(1, "reset"),
                method(2, "capture"),
            ],
        }
    }

    fn descriptor() -> (r: ClassDescriptor) {
        let attributes: &'static [AttributeInfo] = [
            AttributeInfo {
                index: 1,
                name: "logical_name",
                ty: AttrType::ObisCode,
                access: DefaultAccess::Read,
            },
            AttributeInfo {
                index: 2,
                name: "buffer",
                ty: AttrType::OctetString,
                access: DefaultAccess::Read,
            },
            AttributeInfo {
                index: 3,
                name: "capture_objects",
                ty: AttrType::Array,
                access: DefaultAccess::ReadWrite,
            },
            AttributeInfo {
                index: 4,
                name: "template_id",
                ty: AttrType::Unsigned,
                access: DefaultAccess::ReadWrite,
            },
            AttributeInfo {
                index: 5,
                name: "template_description",
                ty: AttrType::OctetString,
                access: DefaultAccess::Read,
            },
            AttributeInfo {
                index: 6,
                name: "capture_method",
                ty: AttrType::Enum,
                access: DefaultAccess::ReadWrite,
            },
        ].as_slice();
        let methods: &'static [MethodInfo] = [
            MethodInfo { index: 1, name: "reset" },
            MethodInfo { index: 2, name: "capture" },
        ].as_slice();
        let r = ClassDescriptor {
            class_id: 62,
            version: 1,
            name: "Compact data",
            attributes,
            methods,
        };
        assert(r@ =~= Self::class());
        r
    }
}

/// Keys, certificates and the security policy of an association.
#[derive(Debug, Clone, Copy, PartialEq, Eq, Default)]
pub struct SecuritySetup;

impl InterfaceClass for SecuritySetup {
    const CLASS_ID: u16 = 64;

    const VERSION: u8 = 1;

    const NAME: &'static str = "Security setup";

    open spec fn class() -> ClassV {
        ClassV {
            class_id: 64,
            version: 1,
            name: "Security setup",
            attributes: seq![
                attribute(1, "logical_name", AttrType::ObisCode, DefaultAccess::Read),
                attribute(2, "security_policy", AttrType::Unsigned, DefaultAccess::Read),
                attribute(3, "security_suite", AttrType::Enum, DefaultAccess::Read),
                attribute(4, "client_system_title", AttrType::OctetString, DefaultAccess::Read),
                attribute(5, "server_system_title", AttrType::OctetString, DefaultAccess::Read),
                attribute(6, "certificates", AttrType::Array, DefaultAccess::Read),
            ],
            methods: seq![
                method(1, "security_activate"),
                method(2, "key_transfer"),
                method(3, "key_agreement"),
                method(4, "generate_key_pair"),
                method(5, "generate_certificate_request"),
                method(6, "import_certificate"),
                method(7, "export_certificate"),
                method(8, "remove_certificate"),
            ],
        }
    }

    fn descriptor() -> (r: ClassDescriptor) {
        let attributes: &'static [AttributeInfo] = [
            AttributeInfo {
                index: 1,
                name: "logical_name",
                ty: AttrType::ObisCode,
                access: DefaultAccess::Read,
            },
            AttributeInfo {
                index: 2,
                name: "security_policy",
                ty: AttrType::Unsigned,
                access: DefaultAccess::Read,
            },
            AttributeInfo {
                index: 3,
                name: "security_suite",
                ty: AttrType::Enum,
                access: DefaultAccess::Read,
            },
            AttributeInfo {
                index: 4,
                name: "client_system_title",
                ty: AttrType::OctetString,
                access: DefaultAccess::Read,
            },
            AttributeInfo {
                index: 5,
                name: "server_system_title",
                ty: AttrType::OctetString,
                access: DefaultAccess::Read,
            },
            AttributeInfo {
                index: 6,
                name: "certificates",
                ty: AttrType::Array,
                access: DefaultAccess::Read,
            },
        ].as_slice();
        let methods: &'static [MethodInfo] = [
            MethodInfo { index: 1, name: "security_activate" },
            MethodInfo { index: 2, name: "key_transfer" },
            MethodInfo { index: 3, name: "key_agreement" },
            MethodInfo { index: 4, name: "generate_key_pair" },
            MethodInfo { index: 5, name: "generate_certificate_request" },
            MethodInfo { index: 6, name: "import_certificate" },
            MethodInfo { index: 7, name: "export_certificate" },
            MethodInfo { index: 8, name: "remove_certificate" },
        ].as_slice();
        let r = ClassDescriptor {
            class_id: 64,
            version: 1,
            name: "Security setup",
            attributes,
            methods,
        };
        assert(r@ =~= Self::class());
        r
    }
}

/// The breaker: connect, disconnect, and the rules for each.
#[derive(Debug, Clone, Copy, PartialEq, Eq, Default)]
pub struct DisconnectControl;

impl InterfaceClass for DisconnectControl {
    const CLASS_ID: u16 = 70;

    const VERSION: u8 = 2;

    const NAME: &'static str = "Disconnect control";

    open spec fn class() -> ClassV {
        ClassV {
            class_id: 70,
            version: 2,
            name: "Disconnect control",
            attributes: seq![
                attribute(1, "logical_name", AttrType::ObisCode, DefaultAccess::Read),
                attribute(2, "output_state", AttrType::Boolean, DefaultAccess::Read),
                attribute(3, "control_state", AttrType::Enum, DefaultAccess::Read),
                attribute(4, "control_mode", AttrType::Enum, DefaultAccess::ReadWrite),
            ],
            methods: seq![
                method(1, "remote_disconnect"),
                method(2, "remote_reconnect"),
            ],
        }
    }

    fn descriptor() -> (r: ClassDescriptor) {
        let attributes: &'static [AttributeInfo] = [
            AttributeInfo {
                index: 1,
                name: "logical_name",
                ty: AttrType::ObisCode,
                access: DefaultAccess::Read,
            },
            AttributeInfo {
                index: 2,
                name: "output_state",
                ty: AttrType::Boolean,
                access: DefaultAccess::Read,
            },
            AttributeInfo {
                index: 3,
                name: "control_state",
                ty: AttrType::Enum,
                access: DefaultAccess::Read,
            },
            AttributeInfo {
                index: 4,
                name: "control_mode",
                ty: AttrType::Enum,
                access: DefaultAccess::ReadWrite,
            },
        ].as_slice();
        let methods: &'static [MethodInfo] = [
            MethodInfo { index: 1, name: "remote_disconnect" },
            MethodInfo { index: 2, name: "remote_reconnect" },
        ].as_slice();
        let r = ClassDescriptor {
            class_id: 70,
            version: 2,
            name: "Disconnect control",
            attributes,
            methods,
        };
        assert(r@ =~= Self::class());
        r
    }
}

/// Limits a monitored value, disconnecting or running a script when it is exceeded.
#[derive(Debug, Clone, Copy, PartialEq, Eq, Default)]
pub struct Limiter;

impl InterfaceClass for Limiter {
    const CLASS_ID: u16 = 71;

    const VERSION: u8 = 0;

    const NAME: &'static str = "Limiter";

    open spec fn class() -> ClassV {
        ClassV {
            class_id: 71,
            version: 0,
            name: "Limiter",
            attributes: seq![
                attribute(1, "logical_name", AttrType::ObisCode, DefaultAccess::Read),
                attribute(2, "monitored_value", AttrType::Structure, DefaultAccess::Read),
                attribute(3, "threshold_active", AttrType::Any, DefaultAccess::Read),
                attribute(4, "threshold_normal", AttrType::Any, DefaultAccess::ReadWrite),
                attribute(5, "threshold_emergency", AttrType::Any, DefaultAccess::ReadWrite),
                attribute(6, "min_over_threshold_duration", AttrType::DoubleLongUnsigned, DefaultAccess::ReadWrite),
                attribute(7, "min_under_threshold_duration", AttrType::DoubleLongUnsigned, DefaultAccess::ReadWrite),
                attribute(8, "emergency_profile", AttrType::Structure, DefaultAccess::ReadWrite),
                attribute(9, "emergency_profile_group_id_list", AttrType::Array, DefaultAccess::ReadWrite),
                attribute(10, "emergency_profile_active", AttrType::Boolean, DefaultAccess::Read),
                attribute(11, "actions", AttrType::Structure, DefaultAccess::ReadWrite),
            ],
            methods: Seq::empty(),
        }
    }

    fn descriptor() -> (r: ClassDescriptor) {
        let attributes: &'static [AttributeInfo] = [
            AttributeInfo {
                index: 1,
                name: "logical_name",
                ty: AttrType::ObisCode,
                access: DefaultAccess::Read,
            },
            AttributeInfo {
                index: 2,
                name: "monitored_value",
                ty: AttrType::Structure,
                access: DefaultAccess::Read,
            },
            AttributeInfo {
                index: 3,
                name: "threshold_active",
                ty: AttrType::Any,
                access: DefaultAccess::Read,
            },
            AttributeInfo {
                index: 4,
                name: "threshold_normal",
                ty: AttrType::Any,
                access: DefaultAccess::ReadWrite,
            },
            AttributeInfo {
                index: 5,
                name: "threshold_emergency",
                ty: AttrType::Any,
                access: DefaultAccess::ReadWrite,
            },
            AttributeInfo {
                index: 6,
                name: "min_over_threshold_duration",
                ty: AttrType::DoubleLongUnsigned,
                access: DefaultAccess::ReadWrite,
            },
            AttributeInfo {
                index: 7,
                name: "min_under_threshold_duration",
                ty: AttrType::DoubleLongUnsigned,
                access: DefaultAccess::ReadWrite,
            },
            AttributeInfo {
                index: 8,
                name: "emergency_profile",
                ty: AttrType::Structure,
                access: DefaultAccess::ReadWrite,
            },
            AttributeInfo {
                index: 9,
                name: "emergency_profile_group_id_list",
                ty: AttrType::Array,
                access: DefaultAccess::ReadWrite,
            },
            AttributeInfo {
                index: 10,
                name: "emergency_profile_active",
                ty: AttrType::Boolean,
                access: DefaultAccess::Read,
            },
            AttributeInfo {
                index: 11,
                name: "actions",
                ty: AttrType::Structure,
                access: DefaultAccess::ReadWrite,
            },
        ].as_slice();
        let methods: &'static [MethodInfo] = [].as_slice();
        let r = ClassDescriptor {
            class_id: 71,
            version: 0,
            name: "Limiter",
            attributes,
            methods,
        };
        assert(r@ =~= Self::class());
        r
    }
}

/// Where and when the meter pushes data on its own initiative.
#[derive(Debug, Clone, Copy, PartialEq, Eq, Default)]
pub struct PushSetup;

impl InterfaceClass for PushSetup {
    const CLASS_ID: u16 = 40;

    const VERSION: u8 = 3;

    const NAME: &'static str = "Push setup";

    open spec fn class() -> ClassV {
        ClassV {
            class_id: 40,
            version: 3,
            name: "Push setup",
            attributes: seq![
                attribute(1, "logical_name", AttrType::ObisCode, DefaultAccess::Read),
                attribute(2, "push_object_list", AttrType::Array, DefaultAccess::ReadWrite),
                attribute(3, "send_destination_and_method", AttrType::Structure, DefaultAccess::ReadWrite),
                attribute(4, "communication_window", AttrType::Array, DefaultAccess::ReadWrite),
                attribute(5, "randomisation_start_interval", AttrType::LongUnsigned, DefaultAccess::ReadWrite),
                attribute(6, "number_of_retries", AttrType::Unsigned, DefaultAccess::ReadWrite),
                attribute(7, "repetition_delay", AttrType::LongUnsigned, DefaultAccess::ReadWrite),
                attribute(8, "port_reference", AttrType::ObisCode, DefaultAccess::Read),
                attribute(9, "push_client_sap", AttrType::Integer, DefaultAccess::ReadWrite),
                attribute(10, "push_protection_parameters", AttrType::Array, DefaultAccess::ReadWrite),
                attribute(11, "push_operation_method", AttrType::Enum, DefaultAccess::ReadWrite),
                attribute(12, "confirmation_parameters", AttrType::Structure, DefaultAccess::ReadWrite),
                attribute(13, "last_confirmation_date_time", AttrType::DateTime, DefaultAccess::Read),
            ],
            methods: seq![
                method(1, "push"),
                method(2, "reset"),
            ],
        }
    }

    fn descriptor() -> (r: ClassDescriptor) {
        let attributes: &'static [AttributeInfo] = [
            AttributeInfo {
                index: 1,
                name: "logical_name",
                ty: AttrType::ObisCode,
                access: DefaultAccess::Read,
            },
            AttributeInfo {
                index: 2,
                name: "push_object_list",
                ty: AttrType::Array,
                access: DefaultAccess::ReadWrite,
            },
            AttributeInfo {
                index: 3,
                name: "send_destination_and_method",
                ty: AttrType::Structure,
                access: DefaultAccess::ReadWrite,
            },
            AttributeInfo {
                index: 4,
                name: "communication_window",
                ty: AttrType::Array,
                access: DefaultAccess::ReadWrite,
            },
            AttributeInfo {
                index: 5,
                name: "randomisation_start_interval",
                ty: AttrType::LongUnsigned,
                access: DefaultAccess::ReadWrite,
            },
            AttributeInfo {
                index: 6,
                name: "number_of_retries",
                ty: AttrType::Unsigned,
                access: DefaultAccess::ReadWrite,
            },
            AttributeInfo {
                index: 7,
                name: "repetition_delay",
                ty: AttrType::LongUnsigned,
                access: DefaultAccess::ReadWrite,
            },
            AttributeInfo {
                index: 8,
                name: "port_reference",
                ty: AttrType::ObisCode,
                access: DefaultAccess::Read,
            },
            AttributeInfo {
                index: 9,
                name: "push_client_sap",
                ty: AttrType::Integer,
                access: DefaultAccess::ReadWrite,
            },
            AttributeInfo {
                index: 10,
                name: "push_protection_parameters",
                ty: AttrType::Array,
                access: DefaultAccess::ReadWrite,
            },
            AttributeInfo {
                index: 11,
                name: "push_operation_method",
                ty: AttrType::Enum,
                access: DefaultAccess::ReadWrite,
            },
            AttributeInfo {
                index: 12,
                name: "confirmation_parameters",
                ty: AttrType::Structure,
                access: DefaultAccess::ReadWrite,
            },
            AttributeInfo {
                index: 13,
                name: "last_confirmation_date_time",
                ty: AttrType::DateTime,
                access: DefaultAccess::Read,
            },
        ].as_slice();
        let methods: &'static [MethodInfo] = [
            MethodInfo { index: 1, name: "push" },
            MethodInfo { index: 2, name: "reset" },
        ].as_slice();
        let r = ClassDescriptor {
            class_id: 40,
            version: 3,
            name: "Push setup",
            attributes,
            methods,
        };
        assert(r@ =~= Self::class());
        r
    }
}

/// The TCP or UDP endpoint the wrapper runs over.
#[derive(Debug, Clone, Copy, PartialEq, Eq, Default)]
pub struct TcpUdpSetup;

impl InterfaceClass for TcpUdpSetup {
    const CLASS_ID: u16 = 41;

    const VERSION: u8 = 0;

    const NAME: &'static str = "TCP-UDP setup";

    open spec fn class() -> ClassV {
        ClassV {
            class_id: 41,
            version: 0,
            name: "TCP-UDP setup",
            attributes: seq![
                attribute(1, "logical_name", AttrType::ObisCode, DefaultAccess::Read),
                attribute(2, "tcp_udp_port", AttrType::LongUnsigned, DefaultAccess::ReadWrite),
                attribute(3, "ip_reference", AttrType::ObisCode, DefaultAccess::ReadWrite),
                attribute(4, "mss", AttrType::LongUnsigned, DefaultAccess::ReadWrite),
                attribute(5, "nb_of_sim_conn", AttrType::Unsigned, DefaultAccess::ReadWrite),
                attribute(6, "inactivity_time_out", AttrType::LongUnsigned, DefaultAccess::ReadWrite),
            ],
            methods: Seq::empty(),
        }
    }

    fn descriptor() -> (r: ClassDescriptor) {
        let attributes: &'static [AttributeInfo] = [
            AttributeInfo {
                index: 1,
                name: "logical_name",
                ty: AttrType::ObisCode,
                access: DefaultAccess::Read,
            },
            AttributeInfo {
                index: 2,
                name: "tcp_udp_port",
                ty: AttrType::LongUnsigned,
                access: DefaultAccess::ReadWrite,
            },
            AttributeInfo {
                index: 3,
                name: "ip_reference",
                ty: AttrType::ObisCode,
                access: DefaultAccess::ReadWrite,
            },
            AttributeInfo {
                index: 4,
                name: "mss",
                ty: AttrType::LongUnsigned,
                access: DefaultAccess::ReadWrite,
            },
            AttributeInfo {
                index: 5,
                name: "nb_of_sim_conn",
                ty: AttrType::Unsigned,
                access: DefaultAccess::ReadWrite,
            },
            AttributeInfo {
                index: 6,
                name: "inactivity_time_out",
                ty: AttrType::LongUnsigned,
                access: DefaultAccess::ReadWrite,
            },
        ].as_slice();
        let methods: &'static [MethodInfo] = [].as_slice();
        let r = ClassDescriptor {
            class_id: 41,
            version: 0,
            name: "TCP-UDP setup",
            attributes,
            methods,
        };
        assert(r@ =~= Self::class());
        r
    }
}

/// Cryptographic protection of a value independent of the association.
#[derive(Debug, Clone, Copy, PartialEq, Eq, Default)]
pub struct DataProtection;

impl InterfaceClass for DataProtection {
    const CLASS_ID: u16 = 30;

    const VERSION: u8 = 0;

    const NAME: &'static str = "Data protection";

    open spec fn class() -> ClassV {
        ClassV {
            class_id: 30,
            version: 0,
            name: "Data protection",
            attributes: seq![
                attribute(1, "logical_name", AttrType::ObisCode, DefaultAccess::Read),
                attribute(2, "protection_buffer", AttrType::Array, DefaultAccess::Read),
                attribute(3, "protection_object_list", AttrType::Array, DefaultAccess::ReadWrite),
            ],
            methods: seq![
                method(1, "get_protected_attributes"),
                method(2, "set_protected_attributes"),
                method(3, "invoke_protected_method"),
            ],
        }
    }

    fn descriptor() -> (r: ClassDescriptor) {
        let attributes: &'static [AttributeInfo] = [
            AttributeInfo {
                index: 1,
                name: "logical_name",
                ty: AttrType::ObisCode,
                access: DefaultAccess::Read,
            },
            AttributeInfo {
                index: 2,
                name: "protection_buffer",
                ty: AttrType::Array,
                access: DefaultAccess::Read,
            },
            AttributeInfo {
                index: 3,
                name: "protection_object_list",
                ty: AttrType::Array,
                access: DefaultAccess::ReadWrite,
            },
        ].as_slice();
        let methods: &'static [MethodInfo] = [
            MethodInfo { index: 1, name: "get_protected_attributes" },
            MethodInfo { index: 2, name: "set_protected_attributes" },
            MethodInfo { index: 3, name: "invoke_protected_method" },
        ].as_slice();
        let r = ClassDescriptor {
            class_id: 30,
            version: 0,
            name: "Data protection",
            attributes,
            methods,
        };
        assert(r@ =~= Self::class());
        r
    }
}

/// A device's attestation token and qualification declaration.
#[derive(Debug, Clone, Copy, PartialEq, Eq, Default)]
pub struct Attestation;

impl InterfaceClass for Attestation {
    const CLASS_ID: u16 = 170;

    const VERSION: u8 = 0;

    const NAME: &'static str = "Attestation";

    open spec fn class() -> ClassV {
        ClassV {
            class_id: 170,
            version: 0,
            name: "Attestation",
            attributes: seq![
                attribute(1, "logical_name", AttrType::ObisCode, DefaultAccess::Read),
                attribute(2, "attestation_token", AttrType::OctetString, DefaultAccess::Read),
                attribute(3, "qualification_declaration", AttrType::OctetString, DefaultAccess::Read),
            ],
            methods: seq![
                method(1, "generate_attestation_token"),
            ],
        }
    }

    fn descriptor() -> (r: ClassDescriptor) {
        let attributes: &'static [AttributeInfo] = [
            AttributeInfo {
                index: 1,
                name: "logical_name",
                ty: AttrType::ObisCode,
                access: DefaultAccess::Read,
            },
            AttributeInfo {
                index: 2,
                name: "attestation_token",
                ty: AttrType::OctetString,
                access: DefaultAccess::Read,
            },
            AttributeInfo {
                index: 3,
                name: "qualification_declaration",
                ty: AttrType::OctetString,
                access: DefaultAccess::Read,
            },
        ].as_slice();
        let methods: &'static [MethodInfo] = [
            MethodInfo { index: 1, name: "generate_attestation_token" },
        ].as_slice();
        let r = ClassDescriptor {
            class_id: 170,
            version: 0,
            name: "Attestation",
            attributes,
            methods,
        };
        assert(r@ =~= Self::class());
        r
    }
}

/// The classes with a full attribute table, by their place.
pub open spec fn detailed(i: int) -> ClassV {
    if i == 0 {
        Data::class()
    } else if i == 1 {
        Register::class()
    } else if i == 2 {
        ExtendedRegister::class()
    } else if i == 3 {
        DemandRegister::class()
    } else if i == 4 {
        RegisterActivation::class()
    } else if i == 5 {
        ProfileGeneric::class()
    } else if i == 6 {
        Clock::class()
    } else if i == 7 {
        ScriptTable::class()
    } else if i == 8 {
        Schedule::class()
    } else if i == 9 {
        SpecialDaysTable::class()
    } else if i == 10 {
        AssociationLn::class()
    } else if i == 11 {
        SapAssignment::class()
    } else if i == 12 {
        ImageTransfer::class()
    } else if i == 13 {
        ActivityCalendar::class()
    } else if i == 14 {
        RegisterMonitor::class()
    } else if i == 15 {
        SingleActionSchedule::class()
    } else if i == 16 {
        IecHdlcSetup::class()
    } else if i == 17 {
        CompactData::class()
    } else if i == 18 {
        SecuritySetup::class()
    } else if i == 19 {
        DisconnectControl::class()
    } else if i == 20 {
        Limiter::class()
    } else if i == 21 {
        PushSetup::class()
    } else if i == 22 {
        TcpUdpSetup::class()
    } else if i == 23 {
        DataProtection::class()
    } else {
        Attestation::class()
    }
}

/// The class with a full attribute table at a place.
fn detailed_at(i: usize) -> (r: ClassDescriptor)
    requires
        i < 25,
    ensures
        r@ == detailed(i as int),
{
    match i {
        0 => Data::descriptor(),
        1 => Register::descriptor(),
        2 => ExtendedRegister::descriptor(),
        3 => DemandRegister::descriptor(),
        4 => RegisterActivation::descriptor(),
        5 => ProfileGeneric::descriptor(),
        6 => Clock::descriptor(),
        7 => ScriptTable::descriptor(),
        8 => Schedule::descriptor(),
        9 => SpecialDaysTable::descriptor(),
        10 => AssociationLn::descriptor(),
        11 => SapAssignment::descriptor(),
        12 => ImageTransfer::descriptor(),
        13 => ActivityCalendar::descriptor(),
        14 => RegisterMonitor::descriptor(),
        15 => SingleActionSchedule::descriptor(),
        16 => IecHdlcSetup::descriptor(),
        17 => CompactData::descriptor(),
        18 => SecuritySetup::descriptor(),
        19 => DisconnectControl::descriptor(),
        20 => Limiter::descriptor(),
        21 => PushSetup::descriptor(),
        22 => TcpUdpSetup::descriptor(),
        23 => DataProtection::descriptor(),
        _ => Attestation::descriptor(),
    }
}

/// Every class with a full attribute table.
#[must_use]
pub fn DETAILED() -> (r: Vec<ClassDescriptor>)
    ensures
        r@.len() == 25,
        forall|i: int| 0 <= i < 25 ==> (#[trigger] r@[i])@ == detailed(i),
{
    let mut all: Vec<ClassDescriptor> = Vec::new();
    let mut i: usize = 0;
    while i < 25
        invariant
            i <= 25,
            all@.len() == i,
            forall|k: int| 0 <= k < i ==> (#[trigger] all@[k])@ == detailed(k),
        decreases 25 - i,
    {
        all.push(detailed_at(i));
        i += 1;
    }
    all
}

/// The identifier, the version and the name of a class of which nothing more is tabulated,
/// by its place.
#[verifier::allow_in_spec]
pub fn named_entry(i: usize) -> (u16, u8, &'static str)
    returns
        (match i {
            0usize => (12u16, 4u8, "Association SN"),
            1usize => (19u16, 1u8, "IEC local port setup"),
            2usize => (24u16, 1u8, "IEC twisted pair (1) setup"),
            3usize => (25u16, 0u8, "M-Bus slave port setup"),
            4usize => (26u16, 0u8, "Utility tables"),
            5usize => (27u16, 1u8, "Modem configuration"),
            6usize => (28u16, 2u8, "Auto answer"),
            7usize => (29u16, 2u8, "Auto connect"),
            8usize => (42u16, 0u8, "IPv4 setup"),
            9usize => (43u16, 0u8, "MAC address setup"),
            10usize => (44u16, 0u8, "PPP setup"),
            11usize => (45u16, 0u8, "GPRS modem setup"),
            12usize => (46u16, 0u8, "SMTP setup"),
            13usize => (47u16, 2u8, "GSM diagnostic"),
            14usize => (48u16, 0u8, "IPv6 setup"),
            15usize => (50u16, 1u8, "S-FSK Phy&MAC setup"),
            16usize => (51u16, 0u8, "S-FSK Active initiator"),
            17usize => (52u16, 0u8, "S-FSK MAC synchronization timeouts"),
            18usize => (53u16, 0u8, "S-FSK MAC counters"),
            19usize => (55u16, 1u8, "IEC 61334-4-32 LLC setup"),
            20usize => (56u16, 0u8, "S-FSK Reporting system list"),
            21usize => (57u16, 0u8, "ISO/IEC 8802-2 LLC Type 1 setup"),
            22usize => (58u16, 0u8, "ISO/IEC 8802-2 LLC Type 2 setup"),
            23usize => (59u16, 0u8, "ISO/IEC 8802-2 LLC Type 3 setup"),
            24usize => (61u16, 0u8, "Register table"),
            25usize => (63u16, 0u8, "Status mapping"),
            26usize => (65u16, 1u8, "Parameter monitor"),
            27usize => (66u16, 0u8, "Measurement data monitoring"),
            28usize => (67u16, 0u8, "Sensor manager"),
            29usize => (68u16, 0u8, "Arbitrator"),
            30usize => (72u16, 2u8, "M-Bus client"),
            31usize => (73u16, 1u8, "Wireless Mode Q channel"),
            32usize => (74u16, 0u8, "M-Bus master port setup"),
            33usize => (76u16, 0u8, "DLMS server M-Bus port setup"),
            34usize => (77u16, 0u8, "M-Bus diagnostic"),
            35usize => (80u16, 0u8, "61334-4-32 LLC SSCS setup"),
            36usize => (81u16, 0u8, "PRIME NB OFDM PLC Physical layer counters"),
            37usize => (82u16, 0u8, "PRIME NB OFDM PLC MAC setup"),
            38usize => (83u16, 0u8, "PRIME NB OFDM PLC MAC functional parameters"),
            39usize => (84u16, 0u8, "PRIME NB OFDM PLC MAC counters"),
            40usize => (85u16, 0u8, "PRIME NB OFDM PLC MAC network administration data"),
            41usize => (86u16, 0u8, "PRIME NB OFDM PLC Application identification"),
            42usize => (90u16, 1u8, "G3-PLC MAC layer counters"),
            43usize => (91u16, 4u8, "G3-PLC MAC setup"),
            44usize => (92u16, 4u8, "G3-PLC 6LoWPAN adaptation layer setup"),
            45usize => (95u16, 0u8, "Wi-SUN setup"),
            46usize => (96u16, 0u8, "Wi-SUN diagnostic"),
            47usize => (97u16, 0u8, "RPL diagnostic"),
            48usize => (98u16, 0u8, "MPL diagnostic"),
            49usize => (100u16, 0u8, "NTP setup"),
            50usize => (101u16, 0u8, "ZigBee SAS startup"),
            51usize => (102u16, 0u8, "ZigBee SAS join"),
            52usize => (103u16, 0u8, "ZigBee SAS APS fragmentation"),
            53usize => (104u16, 0u8, "ZigBee network control"),
            54usize => (105u16, 0u8, "ZigBee tunnel setup"),
            55usize => (111u16, 0u8, "Account"),
            56usize => (112u16, 0u8, "Credit"),
            57usize => (113u16, 0u8, "Charge"),
            58usize => (115u16, 0u8, "Token gateway"),
            59usize => (116u16, 0u8, "IEC 62055-41 attributes"),
            60usize => (122u16, 0u8, "Function control"),
            61usize => (123u16, 0u8, "Array manager"),
            62usize => (124u16, 0u8, "Communication port protection"),
            63usize => (130u16, 0u8, "ISO/IEC 14908 identification"),
            64usize => (131u16, 0u8, "ISO/IEC 14908 protocol setup"),
            65usize => (132u16, 0u8, "ISO/IEC 14908 protocol status"),
            66usize => (133u16, 0u8, "ISO/IEC 14908 diagnostic"),
            67usize => (140u16, 0u8, "HS-PLC ISO/IEC 12139-1 MAC setup"),
            68usize => (141u16, 0u8, "HS-PLC ISO/IEC 12139-1 CPAS setup"),
            69usize => (142u16, 0u8, "HS-PLC ISO/IEC 12139-1 IP SSAS setup"),
            70usize => (143u16, 0u8, "HS-PLC ISO/IEC 12139-1 HDLC SSAS setup"),
            71usize => (151u16, 1u8, "LTE monitoring"),
            72usize => (152u16, 0u8, "CoAP setup"),
            73usize => (153u16, 0u8, "CoAP diagnostic"),
            74usize => (160u16, 0u8, "G3-PLC Hybrid RF MAC layer counters"),
            75usize => (161u16, 1u8, "G3-PLC Hybrid RF MAC setup"),
            _ => (162u16, 1u8, "G3-PLC Hybrid 6LoWPAN adaptation layer setup"),
        }),
{
    match i {
        0 => (12u16, 4u8, "Association SN"),
        1 => (19u16, 1u8, "IEC local port setup"),
        2 => (24u16, 1u8, "IEC twisted pair (1) setup"),
        3 => (25u16, 0u8, "M-Bus slave port setup"),
        4 => (26u16, 0u8, "Utility tables"),
        5 => (27u16, 1u8, "Modem configuration"),
        6 => (28u16, 2u8, "Auto answer"),
        7 => (29u16, 2u8, "Auto connect"),
        8 => (42u16, 0u8, "IPv4 setup"),
        9 => (43u16, 0u8, "MAC address setup"),
        10 => (44u16, 0u8, "PPP setup"),
        11 => (45u16, 0u8, "GPRS modem setup"),
        12 => (46u16, 0u8, "SMTP setup"),
        13 => (47u16, 2u8, "GSM diagnostic"),
        14 => (48u16, 0u8, "IPv6 setup"),
        15 => (50u16, 1u8, "S-FSK Phy&MAC setup"),
        16 => (51u16, 0u8, "S-FSK Active initiator"),
        17 => (52u16, 0u8, "S-FSK MAC synchronization timeouts"),
        18 => (53u16, 0u8, "S-FSK MAC counters"),
        19 => (55u16, 1u8, "IEC 61334-4-32 LLC setup"),
        20 => (56u16, 0u8, "S-FSK Reporting system list"),
        21 => (57u16, 0u8, "ISO/IEC 8802-2 LLC Type 1 setup"),
        22 => (58u16, 0u8, "ISO/IEC 8802-2 LLC Type 2 setup"),
        23 => (59u16, 0u8, "ISO/IEC 8802-2 LLC Type 3 setup"),
        24 => (61u16, 0u8, "Register table"),
        25 => (63u16, 0u8, "Status mapping"),
        26 => (65u16, 1u8, "Parameter monitor"),
        27 => (66u16, 0u8, "Measurement data monitoring"),
        28 => (67u16, 0u8, "Sensor manager"),
        29 => (68u16, 0u8, "Arbitrator"),
        30 => (72u16, 2u8, "M-Bus client"),
        31 => (73u16, 1u8, "Wireless Mode Q channel"),
        32 => (74u16, 0u8, "M-Bus master port setup"),
        33 => (76u16, 0u8, "DLMS server M-Bus port setup"),
        34 => (77u16, 0u8, "M-Bus diagnostic"),
        35 => (80u16, 0u8, "61334-4-32 LLC SSCS setup"),
        36 => (81u16, 0u8, "PRIME NB OFDM PLC Physical layer counters"),
        37 => (82u16, 0u8, "PRIME NB OFDM PLC MAC setup"),
        38 => (83u16, 0u8, "PRIME NB OFDM PLC MAC functional parameters"),
        39 => (84u16, 0u8, "PRIME NB OFDM PLC MAC counters"),
        40 => (85u16, 0u8, "PRIME NB OFDM PLC MAC network administration data"),
        41 => (86u16, 0u8, "PRIME NB OFDM PLC Application identification"),
        42 => (90u16, 1u8, "G3-PLC MAC layer counters"),
        43 => (91u16, 4u8, "G3-PLC MAC setup"),
        44 => (92u16, 4u8, "G3-PLC 6LoWPAN adaptation layer setup"),
        45 => (95u16, 0u8, "Wi-SUN setup"),
        46 => (96u16, 0u8, "Wi-SUN diagnostic"),
        47 => (97u16, 0u8, "RPL diagnostic"),
        48 => (98u16, 0u8, "MPL diagnostic"),
        49 => (100u16, 0u8, "NTP setup"),
        50 => (101u16, 0u8, "ZigBee SAS startup"),
        51 => (102u16, 0u8, "ZigBee SAS join"),
        52 => (103u16, 0u8, "ZigBee SAS APS fragmentation"),
        53 => (104u16, 0u8, "ZigBee network control"),
        54 => (105u16, 0u8, "ZigBee tunnel setup"),
        55 => (111u16, 0u8, "Account"),
        56 => (112u16, 0u8, "Credit"),
        57 => (113u16, 0u8, "Charge"),
        58 => (115u16, 0u8, "Token gateway"),
        59 => (116u16, 0u8, "IEC 62055-41 attributes"),
        60 => (122u16, 0u8, "Function control"),
        61 => (123u16, 0u8, "Array manager"),
        62 => (124u16, 0u8, "Communication port protection"),
        63 => (130u16, 0u8, "ISO/IEC 14908 identification"),
        64 => (131u16, 0u8, "ISO/IEC 14908 protocol setup"),
        65 => (132u16, 0u8, "ISO/IEC 14908 protocol status"),
        66 => (133u16, 0u8, "ISO/IEC 14908 diagnostic"),
        67 => (140u16, 0u8, "HS-PLC ISO/IEC 12139-1 MAC setup"),
        68 => (141u16, 0u8, "HS-PLC ISO/IEC 12139-1 CPAS setup"),
        69 => (142u16, 0u8, "HS-PLC ISO/IEC 12139-1 IP SSAS setup"),
        70 => (143u16, 0u8, "HS-PLC ISO/IEC 12139-1 HDLC SSAS setup"),
        71 => (151u16, 1u8, "LTE monitoring"),
        72 => (152u16, 0u8, "CoAP setup"),
        73 => (153u16, 0u8, "CoAP diagnostic"),
        74 => (160u16, 0u8, "G3-PLC Hybrid RF MAC layer counters"),
        75 => (161u16, 1u8, "G3-PLC Hybrid RF MAC setup"),
        _ => (162u16, 1u8, "G3-PLC Hybrid 6LoWPAN adaptation layer setup"),
    }
}

/// The classes whose name and version are tabulated but whose attributes are not, by their
/// place.
pub open spec fn named(i: int) -> ClassV {
    let (class_id, version, name) = named_entry(i as usize);
    ClassV { class_id, version, name, attributes: Seq::empty(), methods: Seq::empty() }
}

/// Classes whose name and version are tabulated but whose attributes are not.
#[must_use]
pub fn NAMED() -> (r: Vec<ClassDescriptor>)
    ensures
        r@.len() == 77,
        forall|i: int| 0 <= i < 77 ==> (#[trigger] r@[i])@ == named(i),
{
    let mut all: Vec<ClassDescriptor> = Vec::new();
    let mut i: usize = 0;
    while i < 77
        invariant
            i <= 77,
            all@.len() == i,
            forall|k: int| 0 <= k < i ==> (#[trigger] all@[k])@ == named(k),
        decreases 77 - i,
    {
        let (class_id, version, name) = named_entry(i);
        let attributes: &'static [AttributeInfo] = [].as_slice();
        let methods: &'static [MethodInfo] = [].as_slice();
        let c = ClassDescriptor { class_id, version, name, attributes, methods };
        assert(c@ =~= named(i as int));
        all.push(c);
        i += 1;
    }
    all
}

} // verus!
