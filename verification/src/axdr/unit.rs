//! Units and scaled values.
//!
//! A register carries an integer and a `scaler_unit` structure: a power-of-ten exponent
//! and a unit code. [`ScaledValue`] keeps the pair rather than multiplying it out,
//! because a meter reading is an exact decimal and a float is not — 12 345 with a
//! scaler of −3 is exactly 12.345 kWh, and no binary fraction is.

#![allow(non_snake_case)]

use vstd::prelude::*;

use crate::text::{push_decimal, push_decimal_padded, push_digit, push_text};
#[allow(unused_imports)]
use crate::text::{decimal, decimal_padded};

verus! {

/// A unit code from the table of units.
///
/// A newtype rather than an enum, so a unit this crate does not name still round-trips
/// and still prints its numeric code instead of being lost.
#[derive(Debug, Clone, Copy, PartialEq, Eq, PartialOrd, Ord, Hash, Structural)]
pub struct Unit(pub u8);

impl Unit {
    /// The year unit (code 1).
    #[must_use]
    #[verifier::allow_in_spec]
    pub fn YEAR() -> Self
        returns
            Unit(1),
    {
        Unit(1)
    }

    /// The month unit (code 2).
    #[must_use]
    #[verifier::allow_in_spec]
    pub fn MONTH() -> Self
        returns
            Unit(2),
    {
        Unit(2)
    }

    /// The week unit (code 3).
    #[must_use]
    #[verifier::allow_in_spec]
    pub fn WEEK() -> Self
        returns
            Unit(3),
    {
        Unit(3)
    }

    /// The day unit (code 4).
    #[must_use]
    #[verifier::allow_in_spec]
    pub fn DAY() -> Self
        returns
            Unit(4),
    {
        Unit(4)
    }

    /// The hour unit (code 5).
    #[must_use]
    #[verifier::allow_in_spec]
    pub fn HOUR() -> Self
        returns
            Unit(5),
    {
        Unit(5)
    }

    /// The minute unit (code 6).
    #[must_use]
    #[verifier::allow_in_spec]
    pub fn MINUTE() -> Self
        returns
            Unit(6),
    {
        Unit(6)
    }

    /// The second unit (code 7).
    #[must_use]
    #[verifier::allow_in_spec]
    pub fn SECOND() -> Self
        returns
            Unit(7),
    {
        Unit(7)
    }

    /// The phase angle unit (code 8).
    #[must_use]
    #[verifier::allow_in_spec]
    pub fn DEGREE() -> Self
        returns
            Unit(8),
    {
        Unit(8)
    }

    /// The temperature unit (code 9).
    #[must_use]
    #[verifier::allow_in_spec]
    pub fn DEGREE_CELSIUS() -> Self
        returns
            Unit(9),
    {
        Unit(9)
    }

    /// The local currency unit (code 10).
    #[must_use]
    #[verifier::allow_in_spec]
    pub fn CURRENCY() -> Self
        returns
            Unit(10),
    {
        Unit(10)
    }

    /// The length unit (code 11).
    #[must_use]
    #[verifier::allow_in_spec]
    pub fn METRE() -> Self
        returns
            Unit(11),
    {
        Unit(11)
    }

    /// The speed unit (code 12).
    #[must_use]
    #[verifier::allow_in_spec]
    pub fn METRE_PER_SECOND() -> Self
        returns
            Unit(12),
    {
        Unit(12)
    }

    /// The volume unit (code 13).
    #[must_use]
    #[verifier::allow_in_spec]
    pub fn CUBIC_METRE() -> Self
        returns
            Unit(13),
    {
        Unit(13)
    }

    /// The corrected volume unit (code 14).
    #[must_use]
    #[verifier::allow_in_spec]
    pub fn CUBIC_METRE_CORRECTED() -> Self
        returns
            Unit(14),
    {
        Unit(14)
    }

    /// The volume flux unit (code 15).
    #[must_use]
    #[verifier::allow_in_spec]
    pub fn CUBIC_METRE_PER_HOUR() -> Self
        returns
            Unit(15),
    {
        Unit(15)
    }

    /// The corrected volume flux unit (code 16).
    #[must_use]
    #[verifier::allow_in_spec]
    pub fn CUBIC_METRE_PER_HOUR_CORR() -> Self
        returns
            Unit(16),
    {
        Unit(16)
    }

    /// The volume flux per day unit (code 17).
    #[must_use]
    #[verifier::allow_in_spec]
    pub fn CUBIC_METRE_PER_DAY() -> Self
        returns
            Unit(17),
    {
        Unit(17)
    }

    /// The corrected volume flux per day unit (code 18).
    #[must_use]
    #[verifier::allow_in_spec]
    pub fn CUBIC_METRE_PER_DAY_CORR() -> Self
        returns
            Unit(18),
    {
        Unit(18)
    }

    /// The volume unit (code 19).
    #[must_use]
    #[verifier::allow_in_spec]
    pub fn LITRE() -> Self
        returns
            Unit(19),
    {
        Unit(19)
    }

    /// The mass flux unit (code 20).
    #[must_use]
    #[verifier::allow_in_spec]
    pub fn KILOGRAM_PER_SECOND() -> Self
        returns
            Unit(20),
    {
        Unit(20)
    }

    /// The force unit (code 21).
    #[must_use]
    #[verifier::allow_in_spec]
    pub fn NEWTON() -> Self
        returns
            Unit(21),
    {
        Unit(21)
    }

    /// The energy unit (code 22).
    #[must_use]
    #[verifier::allow_in_spec]
    pub fn NEWTON_METRE() -> Self
        returns
            Unit(22),
    {
        Unit(22)
    }

    /// The pressure unit (code 23).
    #[must_use]
    #[verifier::allow_in_spec]
    pub fn PASCAL() -> Self
        returns
            Unit(23),
    {
        Unit(23)
    }

    /// The pressure unit (code 24).
    #[must_use]
    #[verifier::allow_in_spec]
    pub fn BAR() -> Self
        returns
            Unit(24),
    {
        Unit(24)
    }

    /// The energy unit (code 25).
    #[must_use]
    #[verifier::allow_in_spec]
    pub fn JOULE() -> Self
        returns
            Unit(25),
    {
        Unit(25)
    }

    /// The thermal power unit (code 26).
    #[must_use]
    #[verifier::allow_in_spec]
    pub fn JOULE_PER_HOUR() -> Self
        returns
            Unit(26),
    {
        Unit(26)
    }

    /// The active power unit (code 27).
    #[must_use]
    #[verifier::allow_in_spec]
    pub fn WATT() -> Self
        returns
            Unit(27),
    {
        Unit(27)
    }

    /// The apparent power unit (code 28).
    #[must_use]
    #[verifier::allow_in_spec]
    pub fn VOLT_AMPERE() -> Self
        returns
            Unit(28),
    {
        Unit(28)
    }

    /// The reactive power unit (code 29).
    #[must_use]
    #[verifier::allow_in_spec]
    pub fn VAR() -> Self
        returns
            Unit(29),
    {
        Unit(29)
    }

    /// The active energy unit (code 30).
    #[must_use]
    #[verifier::allow_in_spec]
    pub fn WATT_HOUR() -> Self
        returns
            Unit(30),
    {
        Unit(30)
    }

    /// The apparent energy unit (code 31).
    #[must_use]
    #[verifier::allow_in_spec]
    pub fn VOLT_AMPERE_HOUR() -> Self
        returns
            Unit(31),
    {
        Unit(31)
    }

    /// The reactive energy unit (code 32).
    #[must_use]
    #[verifier::allow_in_spec]
    pub fn VAR_HOUR() -> Self
        returns
            Unit(32),
    {
        Unit(32)
    }

    /// The current unit (code 33).
    #[must_use]
    #[verifier::allow_in_spec]
    pub fn AMPERE() -> Self
        returns
            Unit(33),
    {
        Unit(33)
    }

    /// The electrical charge unit (code 34).
    #[must_use]
    #[verifier::allow_in_spec]
    pub fn COULOMB() -> Self
        returns
            Unit(34),
    {
        Unit(34)
    }

    /// The voltage unit (code 35).
    #[must_use]
    #[verifier::allow_in_spec]
    pub fn VOLT() -> Self
        returns
            Unit(35),
    {
        Unit(35)
    }

    /// The electric field strength unit (code 36).
    #[must_use]
    #[verifier::allow_in_spec]
    pub fn VOLT_PER_METRE() -> Self
        returns
            Unit(36),
    {
        Unit(36)
    }

    /// The capacitance unit (code 37).
    #[must_use]
    #[verifier::allow_in_spec]
    pub fn FARAD() -> Self
        returns
            Unit(37),
    {
        Unit(37)
    }

    /// The resistance unit (code 38).
    #[must_use]
    #[verifier::allow_in_spec]
    pub fn OHM() -> Self
        returns
            Unit(38),
    {
        Unit(38)
    }

    /// The resistivity unit (code 39).
    #[must_use]
    #[verifier::allow_in_spec]
    pub fn OHM_METRE() -> Self
        returns
            Unit(39),
    {
        Unit(39)
    }

    /// The magnetic flux unit (code 40).
    #[must_use]
    #[verifier::allow_in_spec]
    pub fn WEBER() -> Self
        returns
            Unit(40),
    {
        Unit(40)
    }

    /// The magnetic flux density unit (code 41).
    #[must_use]
    #[verifier::allow_in_spec]
    pub fn TESLA() -> Self
        returns
            Unit(41),
    {
        Unit(41)
    }

    /// The magnetic field strength unit (code 42).
    #[must_use]
    #[verifier::allow_in_spec]
    pub fn AMPERE_PER_METRE() -> Self
        returns
            Unit(42),
    {
        Unit(42)
    }

    /// The inductance unit (code 43).
    #[must_use]
    #[verifier::allow_in_spec]
    pub fn HENRY() -> Self
        returns
            Unit(43),
    {
        Unit(43)
    }

    /// The frequency unit (code 44).
    #[must_use]
    #[verifier::allow_in_spec]
    pub fn HERTZ() -> Self
        returns
            Unit(44),
    {
        Unit(44)
    }

    /// The active energy meter constant unit (code 45).
    #[must_use]
    #[verifier::allow_in_spec]
    pub fn ACTIVE_ENERGY_METER_CONST() -> Self
        returns
            Unit(45),
    {
        Unit(45)
    }

    /// The reactive energy meter constant unit (code 46).
    #[must_use]
    #[verifier::allow_in_spec]
    pub fn REACTIVE_ENERGY_METER_CONST() -> Self
        returns
            Unit(46),
    {
        Unit(46)
    }

    /// The apparent energy meter constant unit (code 47).
    #[must_use]
    #[verifier::allow_in_spec]
    pub fn APPARENT_ENERGY_METER_CONST() -> Self
        returns
            Unit(47),
    {
        Unit(47)
    }

    /// The volt-squared hours unit (code 48).
    #[must_use]
    #[verifier::allow_in_spec]
    pub fn VOLT_SQUARED_HOUR() -> Self
        returns
            Unit(48),
    {
        Unit(48)
    }

    /// The ampere-squared hours unit (code 49).
    #[must_use]
    #[verifier::allow_in_spec]
    pub fn AMPERE_SQUARED_HOUR() -> Self
        returns
            Unit(49),
    {
        Unit(49)
    }

    /// The mass unit (code 50).
    #[must_use]
    #[verifier::allow_in_spec]
    pub fn KILOGRAM() -> Self
        returns
            Unit(50),
    {
        Unit(50)
    }

    /// The conductance unit (code 51).
    #[must_use]
    #[verifier::allow_in_spec]
    pub fn SIEMENS() -> Self
        returns
            Unit(51),
    {
        Unit(51)
    }

    /// The temperature unit (code 52).
    #[must_use]
    #[verifier::allow_in_spec]
    pub fn KELVIN() -> Self
        returns
            Unit(52),
    {
        Unit(52)
    }

    /// The volt-squared hour meter constant unit (code 53).
    #[must_use]
    #[verifier::allow_in_spec]
    pub fn VOLT_SQUARED_HOUR_CONST() -> Self
        returns
            Unit(53),
    {
        Unit(53)
    }

    /// The ampere-squared hour meter constant unit (code 54).
    #[must_use]
    #[verifier::allow_in_spec]
    pub fn AMPERE_SQUARED_HOUR_CONST() -> Self
        returns
            Unit(54),
    {
        Unit(54)
    }

    /// The volume meter constant unit (code 55).
    #[must_use]
    #[verifier::allow_in_spec]
    pub fn VOLUME_METER_CONSTANT() -> Self
        returns
            Unit(55),
    {
        Unit(55)
    }

    /// The percentage unit (code 56).
    #[must_use]
    #[verifier::allow_in_spec]
    pub fn PERCENTAGE() -> Self
        returns
            Unit(56),
    {
        Unit(56)
    }

    /// The ampere-hours unit (code 57).
    #[must_use]
    #[verifier::allow_in_spec]
    pub fn AMPERE_HOUR() -> Self
        returns
            Unit(57),
    {
        Unit(57)
    }

    /// The energy per volume unit (code 60).
    #[must_use]
    #[verifier::allow_in_spec]
    pub fn ENERGY_PER_VOLUME() -> Self
        returns
            Unit(60),
    {
        Unit(60)
    }

    /// The calorific value unit (code 61).
    #[must_use]
    #[verifier::allow_in_spec]
    pub fn CALORIFIC_VALUE() -> Self
        returns
            Unit(61),
    {
        Unit(61)
    }

    /// The molar fraction of gas unit (code 62).
    #[must_use]
    #[verifier::allow_in_spec]
    pub fn MOLE_PERCENT() -> Self
        returns
            Unit(62),
    {
        Unit(62)
    }

    /// The mass density unit (code 63).
    #[must_use]
    #[verifier::allow_in_spec]
    pub fn MASS_DENSITY() -> Self
        returns
            Unit(63),
    {
        Unit(63)
    }

    /// The dynamic viscosity unit (code 64).
    #[must_use]
    #[verifier::allow_in_spec]
    pub fn PASCAL_SECOND() -> Self
        returns
            Unit(64),
    {
        Unit(64)
    }

    /// The specific energy unit (code 65).
    #[must_use]
    #[verifier::allow_in_spec]
    pub fn SPECIFIC_ENERGY() -> Self
        returns
            Unit(65),
    {
        Unit(65)
    }

    /// The signal strength unit (code 70).
    #[must_use]
    #[verifier::allow_in_spec]
    pub fn DBM() -> Self
        returns
            Unit(70),
    {
        Unit(70)
    }

    /// The signal strength unit (code 71).
    #[must_use]
    #[verifier::allow_in_spec]
    pub fn DB_MICROVOLT() -> Self
        returns
            Unit(71),
    {
        Unit(71)
    }

    /// The logarithmic unit unit (code 72).
    #[must_use]
    #[verifier::allow_in_spec]
    pub fn DB() -> Self
        returns
            Unit(72),
    {
        Unit(72)
    }

    /// The other unit unit (code 254).
    #[must_use]
    #[verifier::allow_in_spec]
    pub fn OTHER_UNIT() -> Self
        returns
            Unit(254),
    {
        Unit(254)
    }

    /// The count, no unit unit (code 255).
    #[must_use]
    #[verifier::allow_in_spec]
    pub fn NO_UNIT() -> Self
        returns
            Unit(255),
    {
        Unit(255)
    }

    /// The symbol, for a unit in the table.
    #[must_use]
    #[verifier::allow_in_spec]
    pub fn symbol(self) -> Option<&'static str>
        returns
            (match self.0 {
                1u8 => Some("a"),
                2u8 => Some("mo"),
                3u8 => Some("wk"),
                4u8 => Some("d"),
                5u8 => Some("h"),
                6u8 => Some("min"),
                7u8 => Some("s"),
                8u8 => Some("°"),
                9u8 => Some("°C"),
                10u8 => Some("¤"),
                11u8 => Some("m"),
                12u8 => Some("m/s"),
                13u8 => Some("m³"),
                14u8 => Some("m³"),
                15u8 => Some("m³/h"),
                16u8 => Some("m³/h"),
                17u8 => Some("m³/d"),
                18u8 => Some("m³/d"),
                19u8 => Some("l"),
                20u8 => Some("kg/s"),
                21u8 => Some("N"),
                22u8 => Some("Nm"),
                23u8 => Some("Pa"),
                24u8 => Some("bar"),
                25u8 => Some("J"),
                26u8 => Some("J/h"),
                27u8 => Some("W"),
                28u8 => Some("VA"),
                29u8 => Some("var"),
                30u8 => Some("Wh"),
                31u8 => Some("VAh"),
                32u8 => Some("varh"),
                33u8 => Some("A"),
                34u8 => Some("C"),
                35u8 => Some("V"),
                36u8 => Some("V/m"),
                37u8 => Some("F"),
                38u8 => Some("Ω"),
                39u8 => Some("Ωm²/m"),
                40u8 => Some("Wb"),
                41u8 => Some("T"),
                42u8 => Some("A/m"),
                43u8 => Some("H"),
                44u8 => Some("Hz"),
                45u8 => Some("1/Wh"),
                46u8 => Some("1/varh"),
                47u8 => Some("1/VAh"),
                48u8 => Some("V²h"),
                49u8 => Some("A²h"),
                50u8 => Some("kg"),
                51u8 => Some("S"),
                52u8 => Some("K"),
                53u8 => Some("1/(V²h)"),
                54u8 => Some("1/(A²h)"),
                55u8 => Some("1/m³"),
                56u8 => Some("%"),
                57u8 => Some("Ah"),
                60u8 => Some("Wh/m³"),
                61u8 => Some("J/m³"),
                62u8 => Some("mol %"),
                63u8 => Some("g/m³"),
                64u8 => Some("Pa s"),
                65u8 => Some("J/kg"),
                70u8 => Some("dBm"),
                71u8 => Some("dBµV"),
                72u8 => Some("dB"),
                254u8 => Some("?"),
                255u8 => Some(""),
                _ => None,
            }),
    {
        match self.0 {
            1 => Some("a"),
            2 => Some("mo"),
            3 => Some("wk"),
            4 => Some("d"),
            5 => Some("h"),
            6 => Some("min"),
            7 => Some("s"),
            8 => Some("°"),
            9 => Some("°C"),
            10 => Some("¤"),
            11 => Some("m"),
            12 => Some("m/s"),
            13 => Some("m³"),
            14 => Some("m³"),
            15 => Some("m³/h"),
            16 => Some("m³/h"),
            17 => Some("m³/d"),
            18 => Some("m³/d"),
            19 => Some("l"),
            20 => Some("kg/s"),
            21 => Some("N"),
            22 => Some("Nm"),
            23 => Some("Pa"),
            24 => Some("bar"),
            25 => Some("J"),
            26 => Some("J/h"),
            27 => Some("W"),
            28 => Some("VA"),
            29 => Some("var"),
            30 => Some("Wh"),
            31 => Some("VAh"),
            32 => Some("varh"),
            33 => Some("A"),
            34 => Some("C"),
            35 => Some("V"),
            36 => Some("V/m"),
            37 => Some("F"),
            38 => Some("Ω"),
            39 => Some("Ωm²/m"),
            40 => Some("Wb"),
            41 => Some("T"),
            42 => Some("A/m"),
            43 => Some("H"),
            44 => Some("Hz"),
            45 => Some("1/Wh"),
            46 => Some("1/varh"),
            47 => Some("1/VAh"),
            48 => Some("V²h"),
            49 => Some("A²h"),
            50 => Some("kg"),
            51 => Some("S"),
            52 => Some("K"),
            53 => Some("1/(V²h)"),
            54 => Some("1/(A²h)"),
            55 => Some("1/m³"),
            56 => Some("%"),
            57 => Some("Ah"),
            60 => Some("Wh/m³"),
            61 => Some("J/m³"),
            62 => Some("mol %"),
            63 => Some("g/m³"),
            64 => Some("Pa s"),
            65 => Some("J/kg"),
            70 => Some("dBm"),
            71 => Some("dBµV"),
            72 => Some("dB"),
            254 => Some("?"),
            255 => Some(""),
            _ => None,
        }
    }

    /// The name, for a unit in the table.
    #[must_use]
    #[verifier::allow_in_spec]
    pub fn name(self) -> Option<&'static str>
        returns
            (match self.0 {
                1u8 => Some("year"),
                2u8 => Some("month"),
                3u8 => Some("week"),
                4u8 => Some("day"),
                5u8 => Some("hour"),
                6u8 => Some("minute"),
                7u8 => Some("second"),
                8u8 => Some("phase angle"),
                9u8 => Some("temperature"),
                10u8 => Some("local currency"),
                11u8 => Some("length"),
                12u8 => Some("speed"),
                13u8 => Some("volume"),
                14u8 => Some("corrected volume"),
                15u8 => Some("volume flux"),
                16u8 => Some("corrected volume flux"),
                17u8 => Some("volume flux per day"),
                18u8 => Some("corrected volume flux per day"),
                19u8 => Some("volume"),
                20u8 => Some("mass flux"),
                21u8 => Some("force"),
                22u8 => Some("energy"),
                23u8 => Some("pressure"),
                24u8 => Some("pressure"),
                25u8 => Some("energy"),
                26u8 => Some("thermal power"),
                27u8 => Some("active power"),
                28u8 => Some("apparent power"),
                29u8 => Some("reactive power"),
                30u8 => Some("active energy"),
                31u8 => Some("apparent energy"),
                32u8 => Some("reactive energy"),
                33u8 => Some("current"),
                34u8 => Some("electrical charge"),
                35u8 => Some("voltage"),
                36u8 => Some("electric field strength"),
                37u8 => Some("capacitance"),
                38u8 => Some("resistance"),
                39u8 => Some("resistivity"),
                40u8 => Some("magnetic flux"),
                41u8 => Some("magnetic flux density"),
                42u8 => Some("magnetic field strength"),
                43u8 => Some("inductance"),
                44u8 => Some("frequency"),
                45u8 => Some("active energy meter constant"),
                46u8 => Some("reactive energy meter constant"),
                47u8 => Some("apparent energy meter constant"),
                48u8 => Some("volt-squared hours"),
                49u8 => Some("ampere-squared hours"),
                50u8 => Some("mass"),
                51u8 => Some("conductance"),
                52u8 => Some("temperature"),
                53u8 => Some("volt-squared hour meter constant"),
                54u8 => Some("ampere-squared hour meter constant"),
                55u8 => Some("volume meter constant"),
                56u8 => Some("percentage"),
                57u8 => Some("ampere-hours"),
                60u8 => Some("energy per volume"),
                61u8 => Some("calorific value"),
                62u8 => Some("molar fraction of gas"),
                63u8 => Some("mass density"),
                64u8 => Some("dynamic viscosity"),
                65u8 => Some("specific energy"),
                70u8 => Some("signal strength"),
                71u8 => Some("signal strength"),
                72u8 => Some("logarithmic unit"),
                254u8 => Some("other unit"),
                255u8 => Some("count, no unit"),
                _ => None,
            }),
    {
        match self.0 {
            1 => Some("year"),
            2 => Some("month"),
            3 => Some("week"),
            4 => Some("day"),
            5 => Some("hour"),
            6 => Some("minute"),
            7 => Some("second"),
            8 => Some("phase angle"),
            9 => Some("temperature"),
            10 => Some("local currency"),
            11 => Some("length"),
            12 => Some("speed"),
            13 => Some("volume"),
            14 => Some("corrected volume"),
            15 => Some("volume flux"),
            16 => Some("corrected volume flux"),
            17 => Some("volume flux per day"),
            18 => Some("corrected volume flux per day"),
            19 => Some("volume"),
            20 => Some("mass flux"),
            21 => Some("force"),
            22 => Some("energy"),
            23 => Some("pressure"),
            24 => Some("pressure"),
            25 => Some("energy"),
            26 => Some("thermal power"),
            27 => Some("active power"),
            28 => Some("apparent power"),
            29 => Some("reactive power"),
            30 => Some("active energy"),
            31 => Some("apparent energy"),
            32 => Some("reactive energy"),
            33 => Some("current"),
            34 => Some("electrical charge"),
            35 => Some("voltage"),
            36 => Some("electric field strength"),
            37 => Some("capacitance"),
            38 => Some("resistance"),
            39 => Some("resistivity"),
            40 => Some("magnetic flux"),
            41 => Some("magnetic flux density"),
            42 => Some("magnetic field strength"),
            43 => Some("inductance"),
            44 => Some("frequency"),
            45 => Some("active energy meter constant"),
            46 => Some("reactive energy meter constant"),
            47 => Some("apparent energy meter constant"),
            48 => Some("volt-squared hours"),
            49 => Some("ampere-squared hours"),
            50 => Some("mass"),
            51 => Some("conductance"),
            52 => Some("temperature"),
            53 => Some("volt-squared hour meter constant"),
            54 => Some("ampere-squared hour meter constant"),
            55 => Some("volume meter constant"),
            56 => Some("percentage"),
            57 => Some("ampere-hours"),
            60 => Some("energy per volume"),
            61 => Some("calorific value"),
            62 => Some("molar fraction of gas"),
            63 => Some("mass density"),
            64 => Some("dynamic viscosity"),
            65 => Some("specific energy"),
            70 => Some("signal strength"),
            71 => Some("signal strength"),
            72 => Some("logarithmic unit"),
            254 => Some("other unit"),
            255 => Some("count, no unit"),
            _ => None,
        }
    }

    /// The unit as text: its symbol, or its code where it has none.
    pub open spec fn text(self) -> Seq<char> {
        match self.symbol() {
            Some(s) => s@,
            None => "unit("@ + decimal(self.0 as nat) + ")"@,
        }
    }

    /// The unit as text: its symbol, or its code where it has none.
    #[must_use]
    pub fn to_string(&self) -> (s: String)
        ensures
            s@ == self.text(),
    {
        let mut s = String::new();
        match self.symbol() {
            Some(t) => {
                push_text(&mut s, t);
                assert(s@ =~= self.text());
            },
            None => {
                push_text(&mut s, "unit(");
                push_decimal(&mut s, self.0 as u64);
                push_text(&mut s, ")");
                assert(s@ =~= self.text());
            },
        }
        s
    }
}

/// A power of ten.
pub open spec fn pow10(e: nat) -> nat
    decreases e,
{
    if e == 0 {
        1
    } else {
        10 * pow10((e - 1) as nat)
    }
}

/// How far a number is from zero.
pub open spec fn magnitude(v: int) -> nat {
    if v < 0 {
        -v as nat
    } else {
        v as nat
    }
}

/// An integer with a power-of-ten scaler and a unit.
///
/// The pair is kept exact: a value that must survive a round trip stays an integer and an
/// exponent.
#[derive(Debug, Clone, Copy, PartialEq, Eq, Structural)]
pub struct ScaledValue {
    /// The raw integer as the meter reported it.
    pub value: i64,
    /// The power of ten to multiply by.
    pub scaler: i8,
    /// The unit.
    pub unit: Unit,
}

impl ScaledValue {
    /// A value with a scaler and unit.
    #[must_use]
    #[verifier::allow_in_spec]
    pub fn new(value: i64, scaler: i8, unit: Unit) -> Self
        returns
            (ScaledValue { value, scaler, unit }),
    {
        ScaledValue { value, scaler, unit }
    }

    /// The value in units of a power of ten no coarser than its own.
    pub open spec fn amount(self, scaler: int) -> int {
        self.value * pow10((self.scaler - scaler) as nat)
    }

    /// The value under another exponent, where it has one.
    pub open spec fn rescaled(self, scaler: i8) -> Option<ScaledValue> {
        if scaler <= self.scaler {
            if i64::MIN <= self.amount(scaler as int) <= i64::MAX {
                Some(
                    ScaledValue {
                        value: self.amount(scaler as int) as i64,
                        scaler,
                        unit: self.unit,
                    },
                )
            } else {
                None
            }
        } else {
            let p = pow10((scaler - self.scaler) as nat) as int;
            if self.value as int % p == 0 {
                Some(ScaledValue { value: (self.value as int / p) as i64, scaler, unit: self.unit })
            } else {
                None
            }
        }
    }

    /// The value rescaled to a different exponent, exactly, or `None` when that would
    /// lose digits or overflow.
    ///
    /// This is how two readings with different scalers are added without going through
    /// a float: bring both to the finer scaler, then add.
    #[must_use]
    pub fn rescale(self, scaler: i8) -> (r: Option<Self>)
        ensures
            r == self.rescaled(scaler),
    {
        let value: i64 = if scaler <= self.scaler {
            finer(self.value, self.scaler as i16 - scaler as i16)?
        } else {
            coarser(self.value, scaler as i16 - self.scaler as i16)?
        };
        Some(ScaledValue { value, scaler, unit: self.unit })
    }

    /// The number as text, its decimal point shifted.
    pub open spec fn digits(self) -> Seq<char> {
        let m = magnitude(self.value as int);
        if self.scaler >= 0 {
            decimal(m) + Seq::new(self.scaler as nat, |i: int| '0')
        } else {
            let places = -self.scaler as nat;
            decimal(m / pow10(places)) + "."@ + decimal_padded(m % pow10(places), places)
        }
    }

    /// The value as text: exact, with the symbol of its unit where it has one.
    pub open spec fn text(self) -> Seq<char> {
        let sign = if self.value < 0 {
            "-"@
        } else {
            Seq::empty()
        };
        let unit = match self.unit.symbol() {
            Some(s) => if s@.len() == 0 {
                Seq::empty()
            } else {
                " "@ + s@
            },
            None => Seq::empty(),
        };
        sign + self.digits() + unit
    }

    /// The value as text: exact, with the symbol of its unit where it has one. The decimal
    /// point is shifted rather than the number multiplied out.
    #[must_use]
    pub fn to_string(&self) -> (s: String)
        ensures
            s@ == self.text(),
    {
        let mut s = String::new();
        if self.value < 0 {
            push_text(&mut s, "-");
        }
        let ghost sign = s@;
        push_scaled(&mut s, self.value, self.scaler);
        assert(s@ == sign + self.digits());
        if let Some(symbol) = self.unit.symbol() {
            if symbol.unicode_len() > 0 {
                push_text(&mut s, " ");
                push_text(&mut s, symbol);
            }
        }
        assert(s@ =~= self.text());
        s
    }
}

/// How far a number is from zero.
fn unsigned_abs(v: i64) -> (m: u64)
    ensures
        m == magnitude(v as int),
{
    if v >= 0 {
        v as u64
    } else if v == i64::MIN {
        0x8000_0000_0000_0000
    } else {
        (-v) as u64
    }
}

/// Append the number, its decimal point shifted.
fn push_scaled(s: &mut String, value: i64, scaler: i8)
    ensures
        final(s)@ == old(s)@ + (ScaledValue { value, scaler, unit: Unit(0) }).digits(),
{
    let ghost before = s@;
    let mag: u64 = unsigned_abs(value);
    if scaler >= 0 {
        push_decimal(s, mag);
        let mut i: i8 = 0;
        while i < scaler
            invariant
                0 <= i <= scaler,
                s@ == before + decimal(mag as nat) + Seq::new(i as nat, |i: int| '0'),
            decreases scaler - i,
        {
            let ghost zeros = Seq::new(i as nat, |i: int| '0');
            push_digit(s, 0);
            i += 1;
            assert(Seq::new(i as nat, |i: int| '0') =~= zeros.push('0'));
            assert(s@ =~= before + decimal(mag as nat) + Seq::new(i as nat, |i: int| '0'));
        }
        assert(s@ =~= before + (ScaledValue { value, scaler, unit: Unit(0) }).digits());
    } else {
        let places: u8 = (-(scaler as i16)) as u8;
        // A scaler past what 64 bits can express leaves the divisor larger than any
        // magnitude, so the integer part is zero and the whole value is printed as the
        // fraction, which is what it is.
        let (whole, frac): (u64, u64) = match power(places) {
            Some(p) => (mag / p, mag % p),
            None => {
                proof {
                    assert(mag as nat / pow10(places as nat) == 0 && mag as nat % pow10(
                        places as nat,
                    ) == mag) by (nonlinear_arith)
                        requires
                            mag < pow10(places as nat),
                    ;
                }
                (0, mag)
            },
        };
        push_decimal(s, whole);
        push_text(s, ".");
        push_decimal_padded(s, frac, places);
        assert(s@ =~= before + (ScaledValue { value, scaler, unit: Unit(0) }).digits());
    }
}

/// A power of ten, where 64 bits hold it.
fn power(e: u8) -> (r: Option<u64>)
    ensures
        match r {
            Some(p) => p == pow10(e as nat) && p > 0,
            None => pow10(e as nat) > u64::MAX,
        },
{
    let mut p: u64 = 1;
    let mut i: u8 = 0;
    while i < e
        invariant
            i <= e,
            p == pow10(i as nat),
            p > 0,
        decreases e - i,
    {
        match p.checked_mul(10) {
            Some(q) => {
                p = q;
            },
            None => {
                proof {
                    lemma_pow10_grows((i + 1) as nat, e as nat);
                }
                return None;
            },
        }
        i += 1;
    }
    Some(p)
}

/// A power of ten is no smaller than an earlier one.
proof fn lemma_pow10_grows(a: nat, b: nat)
    requires
        a <= b,
    ensures
        0 < pow10(a) <= pow10(b),
    decreases b,
{
    if a < b {
        lemma_pow10_grows(a, (b - 1) as nat);
    } else if b > 0 {
        lemma_pow10_grows((b - 1) as nat, (b - 1) as nat);
    }
}

/// Powers of ten multiply as their exponents add.
pub proof fn lemma_pow10_adds(a: nat, b: nat)
    ensures
        pow10(a + b) == pow10(a) * pow10(b),
    decreases a,
{
    if a > 0 {
        lemma_pow10_adds((a - 1) as nat, b);
        assert(10 * (pow10((a - 1) as nat) * pow10(b)) == (10 * pow10((a - 1) as nat)) * pow10(b))
            by (nonlinear_arith);
        assert(pow10(a + b) == 10 * pow10((a - 1 + b) as nat));
    } else {
        assert(pow10(0) * pow10(b) == pow10(b)) by (nonlinear_arith)
            requires
                pow10(0) == 1,
        ;
    }
}

/// A number times a power of ten, where 64 bits hold it.
fn finer(value: i64, steps: i16) -> (r: Option<i64>)
    requires
        0 <= steps,
    ensures
        match r {
            Some(v) => v == value * pow10(steps as nat),
            None => !(i64::MIN <= value * pow10(steps as nat) <= i64::MAX),
        },
{
    let mut v: i64 = value;
    let mut i: i16 = 0;
    assert(value * pow10(0) == value) by (nonlinear_arith)
        requires
            pow10(0) == 1,
    ;
    while i < steps
        invariant
            0 <= i <= steps,
            v == value * pow10(i as nat),
        decreases steps - i,
    {
        proof {
            let p = pow10(i as nat);
            assert(value * (10 * p) == 10 * (value * p)) by (nonlinear_arith);
        }
        match v.checked_mul(10) {
            Some(w) => {
                v = w;
            },
            None => {
                proof {
                    let p = pow10((i + 1) as nat);
                    let rest = pow10((steps - i - 1) as nat);
                    lemma_pow10_adds((i + 1) as nat, (steps - i - 1) as nat);
                    lemma_pow10_grows(0, (steps - i - 1) as nat);
                    assert(value * (p * rest) == (value * p) * rest) by (nonlinear_arith);
                    let w = value * p;
                    assert(w > 0 ==> w * rest >= w) by (nonlinear_arith)
                        requires
                            rest >= 1,
                    ;
                    assert(w < 0 ==> w * rest <= w) by (nonlinear_arith)
                        requires
                            rest >= 1,
                    ;
                }
                return None;
            },
        }
        i += 1;
    }
    Some(v)
}

/// A number divided by a power of ten, where nothing is left over.
fn coarser(value: i64, steps: i16) -> (r: Option<i64>)
    requires
        0 <= steps,
    ensures
        match r {
            Some(v) => value as int % (pow10(steps as nat) as int) == 0 && v == value as int / (
            pow10(steps as nat) as int),
            None => value as int % (pow10(steps as nat) as int) != 0,
        },
{
    let mut m: u64 = unsigned_abs(value);
    let mut i: i16 = 0;
    assert(m * pow10(0) == m) by (nonlinear_arith)
        requires
            pow10(0) == 1,
    ;
    while i < steps
        invariant
            0 <= i <= steps,
            magnitude(value as int) == m * pow10(i as nat),
            m <= magnitude(value as int),
        decreases steps - i,
    {
        proof {
            lemma_pow10_grows(0, i as nat);
        }
        if m % 10 != 0 {
            proof {
                lemma_not_divided(value as int, m as nat, i as nat, steps as nat);
            }
            return None;
        }
        proof {
            let p = pow10(i as nat);
            let q = m / 10;
            assert((10 * q) * p == q * (10 * p)) by (nonlinear_arith);
        }
        m = m / 10;
        i += 1;
    }
    proof {
        lemma_pow10_grows(0, steps as nat);
        lemma_divided(value as int, m as nat, pow10(steps as nat));
    }
    if value >= 0 {
        Some(m as i64)
    } else if m == 0x8000_0000_0000_0000 {
        Some(i64::MIN)
    } else {
        Some(-(m as i64))
    }
}

/// A number whose magnitude is a multiple is divided without a remainder.
proof fn lemma_divided(v: int, m: nat, p: nat)
    requires
        p > 0,
        magnitude(v) == m * p,
    ensures
        v % (p as int) == 0,
        v / (p as int) == (if v < 0 {
            -(m as int)
        } else {
            m as int
        }),
{
    let q: int = if v < 0 {
        -(m as int)
    } else {
        m as int
    };
    assert(v == q * p) by (nonlinear_arith)
        requires
            magnitude(v) == m * p,
            q == (if v < 0 {
                -(m as int)
            } else {
                m as int
            }),
    ;
    vstd::arithmetic::div_mod::lemma_fundamental_div_mod_converse(v, p as int, q, 0);
}

/// A number that a power of ten does not divide is not divided by a greater one.
proof fn lemma_not_divided(v: int, m: nat, i: nat, k: nat)
    requires
        i < k,
        magnitude(v) == m * pow10(i),
        m % 10 != 0,
    ensures
        v % (pow10(k) as int) != 0,
{
    let p = pow10(i);
    lemma_pow10_grows(0, i);
    lemma_pow10_grows(0, k);
    if v % (pow10(k) as int) == 0 {
        let q = v / (pow10(k) as int);
        let rest = pow10((k - i - 1) as nat);
        lemma_pow10_adds(i, (k - i) as nat);
        vstd::arithmetic::div_mod::lemma_fundamental_div_mod(v, pow10(k) as int);
        assert(pow10((k - i) as nat) == 10 * rest);
        let s: int = if v < 0 {
            -(m as int)
        } else {
            m as int
        };
        assert(v == s * p) by (nonlinear_arith)
            requires
                magnitude(v) == m * p,
                s == (if v < 0 {
                    -(m as int)
                } else {
                    m as int
                }),
        ;
        assert(v == (10 * rest * q) * p) by (nonlinear_arith)
            requires
                v == pow10(k) * q,
                pow10(k) == p * (10 * rest),
        ;
        assert(s == 10 * rest * q) by (nonlinear_arith)
            requires
                s * p == (10 * rest * q) * p,
                p > 0,
        ;
        assert((10 * (rest * q)) == 10 * rest * q) by (nonlinear_arith);
        assert(s % 10 == 0);
    }
}

/// A rescaled value is the same amount of the same unit.
pub proof fn law_rescale_is_exact(v: ScaledValue, scaler: i8)
    ensures
        v.rescaled(scaler) matches Some(w) ==> {
            let finest = if scaler <= v.scaler {
                scaler as int
            } else {
                v.scaler as int
            };
            w.scaler == scaler && w.unit == v.unit && w.amount(finest) == v.amount(finest)
        },
{
    if let Some(w) = v.rescaled(scaler) {
        if scaler <= v.scaler {
            assert(w.amount(scaler as int) == w.value * 1);
        } else {
            let p = pow10((scaler - v.scaler) as nat) as int;
            lemma_pow10_grows(0, (scaler - v.scaler) as nat);
            lemma_quotient_fits(v.value as int, p);
            vstd::arithmetic::div_mod::lemma_fundamental_div_mod(v.value as int, p);
            assert(v.amount(v.scaler as int) == v.value * 1);
            assert(p * (v.value as int / p) == (v.value as int / p) * p) by (nonlinear_arith);
        }
    }
}

/// A quotient is no further from zero than what is divided.
proof fn lemma_quotient_fits(v: int, p: int)
    requires
        p > 0,
        v % p == 0,
    ensures
        magnitude(v / p) <= magnitude(v),
{
    vstd::arithmetic::div_mod::lemma_fundamental_div_mod(v, p);
    let q = v / p;
    assert(q >= 0 ==> p * q >= q) by (nonlinear_arith)
        requires
            p > 0,
    ;
    assert(q < 0 ==> p * q <= q) by (nonlinear_arith)
        requires
            p > 0,
    ;
}

/// A value that has been rescaled goes back to what it was.
pub proof fn law_rescale_goes_back(v: ScaledValue, scaler: i8)
    ensures
        v.rescaled(scaler) matches Some(w) ==> w.rescaled(v.scaler) == Some(v),
{
    if let Some(w) = v.rescaled(scaler) {
        law_rescale_is_exact(v, scaler);
        if scaler < v.scaler {
            let p = pow10((v.scaler - scaler) as nat) as int;
            lemma_pow10_grows(0, (v.scaler - scaler) as nat);
            assert(w.value == v.value * p);
            vstd::arithmetic::div_mod::lemma_fundamental_div_mod_converse(
                w.value as int,
                p,
                v.value as int,
                0,
            );
        } else {
            assert(v.amount(v.scaler as int) == v.value * 1);
        }
    }
}

/// The code of every unit.
pub proof fn law_unit_codes()
    ensures
        Unit::YEAR().0 == 1,
        Unit::MONTH().0 == 2,
        Unit::WEEK().0 == 3,
        Unit::DAY().0 == 4,
        Unit::HOUR().0 == 5,
        Unit::MINUTE().0 == 6,
        Unit::SECOND().0 == 7,
        Unit::DEGREE().0 == 8,
        Unit::DEGREE_CELSIUS().0 == 9,
        Unit::CURRENCY().0 == 10,
        Unit::METRE().0 == 11,
        Unit::METRE_PER_SECOND().0 == 12,
        Unit::CUBIC_METRE().0 == 13,
        Unit::CUBIC_METRE_CORRECTED().0 == 14,
        Unit::CUBIC_METRE_PER_HOUR().0 == 15,
        Unit::CUBIC_METRE_PER_HOUR_CORR().0 == 16,
        Unit::CUBIC_METRE_PER_DAY().0 == 17,
        Unit::CUBIC_METRE_PER_DAY_CORR().0 == 18,
        Unit::LITRE().0 == 19,
        Unit::KILOGRAM_PER_SECOND().0 == 20,
        Unit::NEWTON().0 == 21,
        Unit::NEWTON_METRE().0 == 22,
        Unit::PASCAL().0 == 23,
        Unit::BAR().0 == 24,
        Unit::JOULE().0 == 25,
        Unit::JOULE_PER_HOUR().0 == 26,
        Unit::WATT().0 == 27,
        Unit::VOLT_AMPERE().0 == 28,
        Unit::VAR().0 == 29,
        Unit::WATT_HOUR().0 == 30,
        Unit::VOLT_AMPERE_HOUR().0 == 31,
        Unit::VAR_HOUR().0 == 32,
        Unit::AMPERE().0 == 33,
        Unit::COULOMB().0 == 34,
        Unit::VOLT().0 == 35,
        Unit::VOLT_PER_METRE().0 == 36,
        Unit::FARAD().0 == 37,
        Unit::OHM().0 == 38,
        Unit::OHM_METRE().0 == 39,
        Unit::WEBER().0 == 40,
        Unit::TESLA().0 == 41,
        Unit::AMPERE_PER_METRE().0 == 42,
        Unit::HENRY().0 == 43,
        Unit::HERTZ().0 == 44,
        Unit::ACTIVE_ENERGY_METER_CONST().0 == 45,
        Unit::REACTIVE_ENERGY_METER_CONST().0 == 46,
        Unit::APPARENT_ENERGY_METER_CONST().0 == 47,
        Unit::VOLT_SQUARED_HOUR().0 == 48,
        Unit::AMPERE_SQUARED_HOUR().0 == 49,
        Unit::KILOGRAM().0 == 50,
        Unit::SIEMENS().0 == 51,
        Unit::KELVIN().0 == 52,
        Unit::VOLT_SQUARED_HOUR_CONST().0 == 53,
        Unit::AMPERE_SQUARED_HOUR_CONST().0 == 54,
        Unit::VOLUME_METER_CONSTANT().0 == 55,
        Unit::PERCENTAGE().0 == 56,
        Unit::AMPERE_HOUR().0 == 57,
        Unit::ENERGY_PER_VOLUME().0 == 60,
        Unit::CALORIFIC_VALUE().0 == 61,
        Unit::MOLE_PERCENT().0 == 62,
        Unit::MASS_DENSITY().0 == 63,
        Unit::PASCAL_SECOND().0 == 64,
        Unit::SPECIFIC_ENERGY().0 == 65,
        Unit::DBM().0 == 70,
        Unit::DB_MICROVOLT().0 == 71,
        Unit::DB().0 == 72,
        Unit::OTHER_UNIT().0 == 254,
        Unit::NO_UNIT().0 == 255,
{
}

/// The symbol of every unit that has one in the table, and none for any other code.
#[verifier::rlimit(60)]
pub proof fn law_unit_symbols(u: Unit)
    ensures
        u.0 == 1 ==> u.symbol() == Some("a"),
        u.0 == 2 ==> u.symbol() == Some("mo"),
        u.0 == 3 ==> u.symbol() == Some("wk"),
        u.0 == 4 ==> u.symbol() == Some("d"),
        u.0 == 5 ==> u.symbol() == Some("h"),
        u.0 == 6 ==> u.symbol() == Some("min"),
        u.0 == 7 ==> u.symbol() == Some("s"),
        u.0 == 8 ==> u.symbol() == Some("°"),
        u.0 == 9 ==> u.symbol() == Some("°C"),
        u.0 == 10 ==> u.symbol() == Some("¤"),
        u.0 == 11 ==> u.symbol() == Some("m"),
        u.0 == 12 ==> u.symbol() == Some("m/s"),
        u.0 == 13 ==> u.symbol() == Some("m³"),
        u.0 == 14 ==> u.symbol() == Some("m³"),
        u.0 == 15 ==> u.symbol() == Some("m³/h"),
        u.0 == 16 ==> u.symbol() == Some("m³/h"),
        u.0 == 17 ==> u.symbol() == Some("m³/d"),
        u.0 == 18 ==> u.symbol() == Some("m³/d"),
        u.0 == 19 ==> u.symbol() == Some("l"),
        u.0 == 20 ==> u.symbol() == Some("kg/s"),
        u.0 == 21 ==> u.symbol() == Some("N"),
        u.0 == 22 ==> u.symbol() == Some("Nm"),
        u.0 == 23 ==> u.symbol() == Some("Pa"),
        u.0 == 24 ==> u.symbol() == Some("bar"),
        u.0 == 25 ==> u.symbol() == Some("J"),
        u.0 == 26 ==> u.symbol() == Some("J/h"),
        u.0 == 27 ==> u.symbol() == Some("W"),
        u.0 == 28 ==> u.symbol() == Some("VA"),
        u.0 == 29 ==> u.symbol() == Some("var"),
        u.0 == 30 ==> u.symbol() == Some("Wh"),
        u.0 == 31 ==> u.symbol() == Some("VAh"),
        u.0 == 32 ==> u.symbol() == Some("varh"),
        u.0 == 33 ==> u.symbol() == Some("A"),
        u.0 == 34 ==> u.symbol() == Some("C"),
        u.0 == 35 ==> u.symbol() == Some("V"),
        u.0 == 36 ==> u.symbol() == Some("V/m"),
        u.0 == 37 ==> u.symbol() == Some("F"),
        u.0 == 38 ==> u.symbol() == Some("Ω"),
        u.0 == 39 ==> u.symbol() == Some("Ωm²/m"),
        u.0 == 40 ==> u.symbol() == Some("Wb"),
        u.0 == 41 ==> u.symbol() == Some("T"),
        u.0 == 42 ==> u.symbol() == Some("A/m"),
        u.0 == 43 ==> u.symbol() == Some("H"),
        u.0 == 44 ==> u.symbol() == Some("Hz"),
        u.0 == 45 ==> u.symbol() == Some("1/Wh"),
        u.0 == 46 ==> u.symbol() == Some("1/varh"),
        u.0 == 47 ==> u.symbol() == Some("1/VAh"),
        u.0 == 48 ==> u.symbol() == Some("V²h"),
        u.0 == 49 ==> u.symbol() == Some("A²h"),
        u.0 == 50 ==> u.symbol() == Some("kg"),
        u.0 == 51 ==> u.symbol() == Some("S"),
        u.0 == 52 ==> u.symbol() == Some("K"),
        u.0 == 53 ==> u.symbol() == Some("1/(V²h)"),
        u.0 == 54 ==> u.symbol() == Some("1/(A²h)"),
        u.0 == 55 ==> u.symbol() == Some("1/m³"),
        u.0 == 56 ==> u.symbol() == Some("%"),
        u.0 == 57 ==> u.symbol() == Some("Ah"),
        u.0 == 60 ==> u.symbol() == Some("Wh/m³"),
        u.0 == 61 ==> u.symbol() == Some("J/m³"),
        u.0 == 62 ==> u.symbol() == Some("mol %"),
        u.0 == 63 ==> u.symbol() == Some("g/m³"),
        u.0 == 64 ==> u.symbol() == Some("Pa s"),
        u.0 == 65 ==> u.symbol() == Some("J/kg"),
        u.0 == 70 ==> u.symbol() == Some("dBm"),
        u.0 == 71 ==> u.symbol() == Some("dBµV"),
        u.0 == 72 ==> u.symbol() == Some("dB"),
        u.0 == 254 ==> u.symbol() == Some("?"),
        u.0 == 255 ==> u.symbol() == Some(""),
        u.symbol() is Some <==> 1 <= u.0 <= 57 || 60 <= u.0 <= 65 || 70 <= u.0 <= 72 || 254 <= u.0 <= 255,
{
}

/// The name of every unit that has one in the table, and none for any other code.
#[verifier::rlimit(60)]
pub proof fn law_unit_names(u: Unit)
    ensures
        u.0 == 1 ==> u.name() == Some("year"),
        u.0 == 2 ==> u.name() == Some("month"),
        u.0 == 3 ==> u.name() == Some("week"),
        u.0 == 4 ==> u.name() == Some("day"),
        u.0 == 5 ==> u.name() == Some("hour"),
        u.0 == 6 ==> u.name() == Some("minute"),
        u.0 == 7 ==> u.name() == Some("second"),
        u.0 == 8 ==> u.name() == Some("phase angle"),
        u.0 == 9 ==> u.name() == Some("temperature"),
        u.0 == 10 ==> u.name() == Some("local currency"),
        u.0 == 11 ==> u.name() == Some("length"),
        u.0 == 12 ==> u.name() == Some("speed"),
        u.0 == 13 ==> u.name() == Some("volume"),
        u.0 == 14 ==> u.name() == Some("corrected volume"),
        u.0 == 15 ==> u.name() == Some("volume flux"),
        u.0 == 16 ==> u.name() == Some("corrected volume flux"),
        u.0 == 17 ==> u.name() == Some("volume flux per day"),
        u.0 == 18 ==> u.name() == Some("corrected volume flux per day"),
        u.0 == 19 ==> u.name() == Some("volume"),
        u.0 == 20 ==> u.name() == Some("mass flux"),
        u.0 == 21 ==> u.name() == Some("force"),
        u.0 == 22 ==> u.name() == Some("energy"),
        u.0 == 23 ==> u.name() == Some("pressure"),
        u.0 == 24 ==> u.name() == Some("pressure"),
        u.0 == 25 ==> u.name() == Some("energy"),
        u.0 == 26 ==> u.name() == Some("thermal power"),
        u.0 == 27 ==> u.name() == Some("active power"),
        u.0 == 28 ==> u.name() == Some("apparent power"),
        u.0 == 29 ==> u.name() == Some("reactive power"),
        u.0 == 30 ==> u.name() == Some("active energy"),
        u.0 == 31 ==> u.name() == Some("apparent energy"),
        u.0 == 32 ==> u.name() == Some("reactive energy"),
        u.0 == 33 ==> u.name() == Some("current"),
        u.0 == 34 ==> u.name() == Some("electrical charge"),
        u.0 == 35 ==> u.name() == Some("voltage"),
        u.0 == 36 ==> u.name() == Some("electric field strength"),
        u.0 == 37 ==> u.name() == Some("capacitance"),
        u.0 == 38 ==> u.name() == Some("resistance"),
        u.0 == 39 ==> u.name() == Some("resistivity"),
        u.0 == 40 ==> u.name() == Some("magnetic flux"),
        u.0 == 41 ==> u.name() == Some("magnetic flux density"),
        u.0 == 42 ==> u.name() == Some("magnetic field strength"),
        u.0 == 43 ==> u.name() == Some("inductance"),
        u.0 == 44 ==> u.name() == Some("frequency"),
        u.0 == 45 ==> u.name() == Some("active energy meter constant"),
        u.0 == 46 ==> u.name() == Some("reactive energy meter constant"),
        u.0 == 47 ==> u.name() == Some("apparent energy meter constant"),
        u.0 == 48 ==> u.name() == Some("volt-squared hours"),
        u.0 == 49 ==> u.name() == Some("ampere-squared hours"),
        u.0 == 50 ==> u.name() == Some("mass"),
        u.0 == 51 ==> u.name() == Some("conductance"),
        u.0 == 52 ==> u.name() == Some("temperature"),
        u.0 == 53 ==> u.name() == Some("volt-squared hour meter constant"),
        u.0 == 54 ==> u.name() == Some("ampere-squared hour meter constant"),
        u.0 == 55 ==> u.name() == Some("volume meter constant"),
        u.0 == 56 ==> u.name() == Some("percentage"),
        u.0 == 57 ==> u.name() == Some("ampere-hours"),
        u.0 == 60 ==> u.name() == Some("energy per volume"),
        u.0 == 61 ==> u.name() == Some("calorific value"),
        u.0 == 62 ==> u.name() == Some("molar fraction of gas"),
        u.0 == 63 ==> u.name() == Some("mass density"),
        u.0 == 64 ==> u.name() == Some("dynamic viscosity"),
        u.0 == 65 ==> u.name() == Some("specific energy"),
        u.0 == 70 ==> u.name() == Some("signal strength"),
        u.0 == 71 ==> u.name() == Some("signal strength"),
        u.0 == 72 ==> u.name() == Some("logarithmic unit"),
        u.0 == 254 ==> u.name() == Some("other unit"),
        u.0 == 255 ==> u.name() == Some("count, no unit"),
        u.name() is Some <==> 1 <= u.0 <= 57 || 60 <= u.0 <= 65 || 70 <= u.0 <= 72 || 254 <= u.0 <= 255,
{
}

} // verus!
