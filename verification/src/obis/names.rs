//! Well-known logical names.
//!
//! Only codes whose meaning is fixed and stable across profiles are listed. A meter's
//! own object list is the authority for everything else.

#![allow(non_snake_case)]

use vstd::prelude::*;

use super::Obis;

verus! {

/// The clock object, `0-0:1.0.0*255`.
#[must_use]
pub fn CLOCK() -> (o: Obis)
    ensures
        o@ == seq![0u8, 0u8, 1u8, 0u8, 0u8, 255u8],
{
    Obis::new(0, 0, 1, 0, 0, 255)
}

/// COSEM logical device name, `0-0:42.0.0*255`.
#[must_use]
pub fn LOGICAL_DEVICE_NAME() -> (o: Obis)
    ensures
        o@ == seq![0u8, 0u8, 42u8, 0u8, 0u8, 255u8],
{
    Obis::new(0, 0, 42, 0, 0, 255)
}

/// The current association object, `0-0:40.0.0*255`.
#[must_use]
pub fn CURRENT_ASSOCIATION() -> (o: Obis)
    ensures
        o@ == seq![0u8, 0u8, 40u8, 0u8, 0u8, 255u8],
{
    Obis::new(0, 0, 40, 0, 0, 255)
}

/// Security setup for the management association, `0-0:43.0.0*255`.
#[must_use]
pub fn SECURITY_SETUP() -> (o: Obis)
    ensures
        o@ == seq![0u8, 0u8, 43u8, 0u8, 0u8, 255u8],
{
    Obis::new(0, 0, 43, 0, 0, 255)
}

/// SAP assignment, `0-0:41.0.0*255`.
#[must_use]
pub fn SAP_ASSIGNMENT() -> (o: Obis)
    ensures
        o@ == seq![0u8, 0u8, 41u8, 0u8, 0u8, 255u8],
{
    Obis::new(0, 0, 41, 0, 0, 255)
}

/// Device ID 1, the manufacturer's serial number, `0-0:96.1.0*255`.
#[must_use]
pub fn DEVICE_ID_1() -> (o: Obis)
    ensures
        o@ == seq![0u8, 0u8, 96u8, 1u8, 0u8, 255u8],
{
    Obis::new(0, 0, 96, 1, 0, 255)
}

/// The error register, `0-0:97.97.0*255`.
#[must_use]
pub fn ERROR_REGISTER() -> (o: Obis)
    ensures
        o@ == seq![0u8, 0u8, 97u8, 97u8, 0u8, 255u8],
{
    Obis::new(0, 0, 97, 97, 0, 255)
}

/// The standard event log, `0-0:99.98.0*255`.
#[must_use]
pub fn EVENT_LOG() -> (o: Obis)
    ensures
        o@ == seq![0u8, 0u8, 99u8, 98u8, 0u8, 255u8],
{
    Obis::new(0, 0, 99, 98, 0, 255)
}

/// IEC HDLC setup for port 0, `0-0:22.0.0*255`.
#[must_use]
pub fn HDLC_SETUP() -> (o: Obis)
    ensures
        o@ == seq![0u8, 0u8, 22u8, 0u8, 0u8, 255u8],
{
    Obis::new(0, 0, 22, 0, 0, 255)
}

/// Disconnect control, `0-0:96.3.10*255`.
#[must_use]
pub fn DISCONNECT_CONTROL() -> (o: Obis)
    ensures
        o@ == seq![0u8, 0u8, 96u8, 3u8, 10u8, 255u8],
{
    Obis::new(0, 0, 96, 3, 10, 255)
}

/// Push setup, `0-0:25.9.0*255`.
#[must_use]
pub fn PUSH_SETUP() -> (o: Obis)
    ensures
        o@ == seq![0u8, 0u8, 25u8, 9u8, 0u8, 255u8],
{
    Obis::new(0, 0, 25, 9, 0, 255)
}

/// Image transfer, `0-0:44.0.0*255`.
#[must_use]
pub fn IMAGE_TRANSFER() -> (o: Obis)
    ensures
        o@ == seq![0u8, 0u8, 44u8, 0u8, 0u8, 255u8],
{
    Obis::new(0, 0, 44, 0, 0, 255)
}

/// Active energy imported, total: `1-0:1.8.0*255`.
#[must_use]
pub fn ACTIVE_ENERGY_IMPORT_TOTAL() -> (o: Obis)
    ensures
        o@ == seq![1u8, 0u8, 1u8, 8u8, 0u8, 255u8],
{
    Obis::new(1, 0, 1, 8, 0, 255)
}

/// Active energy imported, rate 1: `1-0:1.8.1*255`.
#[must_use]
pub fn ACTIVE_ENERGY_IMPORT_T1() -> (o: Obis)
    ensures
        o@ == seq![1u8, 0u8, 1u8, 8u8, 1u8, 255u8],
{
    Obis::new(1, 0, 1, 8, 1, 255)
}

/// Active energy imported, rate 2: `1-0:1.8.2*255`.
#[must_use]
pub fn ACTIVE_ENERGY_IMPORT_T2() -> (o: Obis)
    ensures
        o@ == seq![1u8, 0u8, 1u8, 8u8, 2u8, 255u8],
{
    Obis::new(1, 0, 1, 8, 2, 255)
}

/// Active energy exported, total: `1-0:2.8.0*255`.
#[must_use]
pub fn ACTIVE_ENERGY_EXPORT_TOTAL() -> (o: Obis)
    ensures
        o@ == seq![1u8, 0u8, 2u8, 8u8, 0u8, 255u8],
{
    Obis::new(1, 0, 2, 8, 0, 255)
}

/// Reactive energy imported (Q1+Q2), total: `1-0:3.8.0*255`.
#[must_use]
pub fn REACTIVE_ENERGY_IMPORT_TOTAL() -> (o: Obis)
    ensures
        o@ == seq![1u8, 0u8, 3u8, 8u8, 0u8, 255u8],
{
    Obis::new(1, 0, 3, 8, 0, 255)
}

/// Reactive energy exported (Q3+Q4), total: `1-0:4.8.0*255`.
#[must_use]
pub fn REACTIVE_ENERGY_EXPORT_TOTAL() -> (o: Obis)
    ensures
        o@ == seq![1u8, 0u8, 4u8, 8u8, 0u8, 255u8],
{
    Obis::new(1, 0, 4, 8, 0, 255)
}

/// Instantaneous active power imported: `1-0:1.7.0*255`.
#[must_use]
pub fn ACTIVE_POWER_IMPORT() -> (o: Obis)
    ensures
        o@ == seq![1u8, 0u8, 1u8, 7u8, 0u8, 255u8],
{
    Obis::new(1, 0, 1, 7, 0, 255)
}

/// Instantaneous active power exported: `1-0:2.7.0*255`.
#[must_use]
pub fn ACTIVE_POWER_EXPORT() -> (o: Obis)
    ensures
        o@ == seq![1u8, 0u8, 2u8, 7u8, 0u8, 255u8],
{
    Obis::new(1, 0, 2, 7, 0, 255)
}

/// Instantaneous voltage, phase L1: `1-0:32.7.0*255`.
#[must_use]
pub fn VOLTAGE_L1() -> (o: Obis)
    ensures
        o@ == seq![1u8, 0u8, 32u8, 7u8, 0u8, 255u8],
{
    Obis::new(1, 0, 32, 7, 0, 255)
}

/// Instantaneous voltage, phase L2: `1-0:52.7.0*255`.
#[must_use]
pub fn VOLTAGE_L2() -> (o: Obis)
    ensures
        o@ == seq![1u8, 0u8, 52u8, 7u8, 0u8, 255u8],
{
    Obis::new(1, 0, 52, 7, 0, 255)
}

/// Instantaneous voltage, phase L3: `1-0:72.7.0*255`.
#[must_use]
pub fn VOLTAGE_L3() -> (o: Obis)
    ensures
        o@ == seq![1u8, 0u8, 72u8, 7u8, 0u8, 255u8],
{
    Obis::new(1, 0, 72, 7, 0, 255)
}

/// Instantaneous current, phase L1: `1-0:31.7.0*255`.
#[must_use]
pub fn CURRENT_L1() -> (o: Obis)
    ensures
        o@ == seq![1u8, 0u8, 31u8, 7u8, 0u8, 255u8],
{
    Obis::new(1, 0, 31, 7, 0, 255)
}

/// Instantaneous current, phase L2: `1-0:51.7.0*255`.
#[must_use]
pub fn CURRENT_L2() -> (o: Obis)
    ensures
        o@ == seq![1u8, 0u8, 51u8, 7u8, 0u8, 255u8],
{
    Obis::new(1, 0, 51, 7, 0, 255)
}

/// Instantaneous current, phase L3: `1-0:71.7.0*255`.
#[must_use]
pub fn CURRENT_L3() -> (o: Obis)
    ensures
        o@ == seq![1u8, 0u8, 71u8, 7u8, 0u8, 255u8],
{
    Obis::new(1, 0, 71, 7, 0, 255)
}

/// The load profile with a one-minute to one-hour capture period: `1-0:99.1.0*255`.
#[must_use]
pub fn LOAD_PROFILE_1() -> (o: Obis)
    ensures
        o@ == seq![1u8, 0u8, 99u8, 1u8, 0u8, 255u8],
{
    Obis::new(1, 0, 99, 1, 0, 255)
}

/// The daily profile: `1-0:99.2.0*255`.
#[must_use]
pub fn LOAD_PROFILE_2() -> (o: Obis)
    ensures
        o@ == seq![1u8, 0u8, 99u8, 2u8, 0u8, 255u8],
{
    Obis::new(1, 0, 99, 2, 0, 255)
}

/// What the well-known names are.
pub proof fn law_well_known_names()
    ensures
        forall|o: Obis|
            #![trigger call_ensures(CLOCK, (), o)]
            call_ensures(CLOCK, (), o) ==> o@ == seq![0u8, 0u8, 1u8, 0u8, 0u8, 255u8],
        forall|o: Obis|
            #![trigger call_ensures(LOGICAL_DEVICE_NAME, (), o)]
            call_ensures(LOGICAL_DEVICE_NAME, (), o) ==> o@ == seq![0u8, 0u8, 42u8, 0u8, 0u8, 255u8],
        forall|o: Obis|
            #![trigger call_ensures(CURRENT_ASSOCIATION, (), o)]
            call_ensures(CURRENT_ASSOCIATION, (), o) ==> o@ == seq![0u8, 0u8, 40u8, 0u8, 0u8, 255u8],
        forall|o: Obis|
            #![trigger call_ensures(SECURITY_SETUP, (), o)]
            call_ensures(SECURITY_SETUP, (), o) ==> o@ == seq![0u8, 0u8, 43u8, 0u8, 0u8, 255u8],
        forall|o: Obis|
            #![trigger call_ensures(SAP_ASSIGNMENT, (), o)]
            call_ensures(SAP_ASSIGNMENT, (), o) ==> o@ == seq![0u8, 0u8, 41u8, 0u8, 0u8, 255u8],
        forall|o: Obis|
            #![trigger call_ensures(DEVICE_ID_1, (), o)]
            call_ensures(DEVICE_ID_1, (), o) ==> o@ == seq![0u8, 0u8, 96u8, 1u8, 0u8, 255u8],
        forall|o: Obis|
            #![trigger call_ensures(ERROR_REGISTER, (), o)]
            call_ensures(ERROR_REGISTER, (), o) ==> o@ == seq![0u8, 0u8, 97u8, 97u8, 0u8, 255u8],
        forall|o: Obis|
            #![trigger call_ensures(EVENT_LOG, (), o)]
            call_ensures(EVENT_LOG, (), o) ==> o@ == seq![0u8, 0u8, 99u8, 98u8, 0u8, 255u8],
        forall|o: Obis|
            #![trigger call_ensures(HDLC_SETUP, (), o)]
            call_ensures(HDLC_SETUP, (), o) ==> o@ == seq![0u8, 0u8, 22u8, 0u8, 0u8, 255u8],
        forall|o: Obis|
            #![trigger call_ensures(DISCONNECT_CONTROL, (), o)]
            call_ensures(DISCONNECT_CONTROL, (), o) ==> o@ == seq![0u8, 0u8, 96u8, 3u8, 10u8, 255u8],
        forall|o: Obis|
            #![trigger call_ensures(PUSH_SETUP, (), o)]
            call_ensures(PUSH_SETUP, (), o) ==> o@ == seq![0u8, 0u8, 25u8, 9u8, 0u8, 255u8],
        forall|o: Obis|
            #![trigger call_ensures(IMAGE_TRANSFER, (), o)]
            call_ensures(IMAGE_TRANSFER, (), o) ==> o@ == seq![0u8, 0u8, 44u8, 0u8, 0u8, 255u8],
        forall|o: Obis|
            #![trigger call_ensures(ACTIVE_ENERGY_IMPORT_TOTAL, (), o)]
            call_ensures(ACTIVE_ENERGY_IMPORT_TOTAL, (), o) ==> o@ == seq![1u8, 0u8, 1u8, 8u8, 0u8, 255u8],
        forall|o: Obis|
            #![trigger call_ensures(ACTIVE_ENERGY_IMPORT_T1, (), o)]
            call_ensures(ACTIVE_ENERGY_IMPORT_T1, (), o) ==> o@ == seq![1u8, 0u8, 1u8, 8u8, 1u8, 255u8],
        forall|o: Obis|
            #![trigger call_ensures(ACTIVE_ENERGY_IMPORT_T2, (), o)]
            call_ensures(ACTIVE_ENERGY_IMPORT_T2, (), o) ==> o@ == seq![1u8, 0u8, 1u8, 8u8, 2u8, 255u8],
        forall|o: Obis|
            #![trigger call_ensures(ACTIVE_ENERGY_EXPORT_TOTAL, (), o)]
            call_ensures(ACTIVE_ENERGY_EXPORT_TOTAL, (), o) ==> o@ == seq![1u8, 0u8, 2u8, 8u8, 0u8, 255u8],
        forall|o: Obis|
            #![trigger call_ensures(REACTIVE_ENERGY_IMPORT_TOTAL, (), o)]
            call_ensures(REACTIVE_ENERGY_IMPORT_TOTAL, (), o) ==> o@ == seq![1u8, 0u8, 3u8, 8u8, 0u8, 255u8],
        forall|o: Obis|
            #![trigger call_ensures(REACTIVE_ENERGY_EXPORT_TOTAL, (), o)]
            call_ensures(REACTIVE_ENERGY_EXPORT_TOTAL, (), o) ==> o@ == seq![1u8, 0u8, 4u8, 8u8, 0u8, 255u8],
        forall|o: Obis|
            #![trigger call_ensures(ACTIVE_POWER_IMPORT, (), o)]
            call_ensures(ACTIVE_POWER_IMPORT, (), o) ==> o@ == seq![1u8, 0u8, 1u8, 7u8, 0u8, 255u8],
        forall|o: Obis|
            #![trigger call_ensures(ACTIVE_POWER_EXPORT, (), o)]
            call_ensures(ACTIVE_POWER_EXPORT, (), o) ==> o@ == seq![1u8, 0u8, 2u8, 7u8, 0u8, 255u8],
        forall|o: Obis|
            #![trigger call_ensures(VOLTAGE_L1, (), o)]
            call_ensures(VOLTAGE_L1, (), o) ==> o@ == seq![1u8, 0u8, 32u8, 7u8, 0u8, 255u8],
        forall|o: Obis|
            #![trigger call_ensures(VOLTAGE_L2, (), o)]
            call_ensures(VOLTAGE_L2, (), o) ==> o@ == seq![1u8, 0u8, 52u8, 7u8, 0u8, 255u8],
        forall|o: Obis|
            #![trigger call_ensures(VOLTAGE_L3, (), o)]
            call_ensures(VOLTAGE_L3, (), o) ==> o@ == seq![1u8, 0u8, 72u8, 7u8, 0u8, 255u8],
        forall|o: Obis|
            #![trigger call_ensures(CURRENT_L1, (), o)]
            call_ensures(CURRENT_L1, (), o) ==> o@ == seq![1u8, 0u8, 31u8, 7u8, 0u8, 255u8],
        forall|o: Obis|
            #![trigger call_ensures(CURRENT_L2, (), o)]
            call_ensures(CURRENT_L2, (), o) ==> o@ == seq![1u8, 0u8, 51u8, 7u8, 0u8, 255u8],
        forall|o: Obis|
            #![trigger call_ensures(CURRENT_L3, (), o)]
            call_ensures(CURRENT_L3, (), o) ==> o@ == seq![1u8, 0u8, 71u8, 7u8, 0u8, 255u8],
        forall|o: Obis|
            #![trigger call_ensures(LOAD_PROFILE_1, (), o)]
            call_ensures(LOAD_PROFILE_1, (), o) ==> o@ == seq![1u8, 0u8, 99u8, 1u8, 0u8, 255u8],
        forall|o: Obis|
            #![trigger call_ensures(LOAD_PROFILE_2, (), o)]
            call_ensures(LOAD_PROFILE_2, (), o) ==> o@ == seq![1u8, 0u8, 99u8, 2u8, 0u8, 255u8],
{
}

} // verus!
