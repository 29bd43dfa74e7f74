//! What values are on the wire and what is read out of them, what a time is, and what an
//! amount is.

use vstd::prelude::*;
#[allow(unused_imports)]
use vstd::string::StringSliceAdditionalSpecFns;

#[allow(unused_imports)]
use super::data::{BitStr, BitV, Data, DataSeq, DataV};
#[allow(unused_imports)]
use super::datetime::{
    civil_days, field_text, is_civil, is_leap, iso_weekday, month_len, year_text, ClockStatus,
    DateTime,
};
#[allow(unused_imports)]
use super::unit::{magnitude, pow10, ScaledValue};
#[allow(unused_imports)]
use crate::bytes::be_bytes;
#[allow(unused_imports)]
use crate::codec::enc_length;
#[allow(unused_imports)]
use crate::obis::Obis;
#[allow(unused_imports)]
use crate::text::{decimal, decimal_padded, digit_char};
#[allow(unused_imports)]
use crate::xdlms::wire::{four, law_numbers_are_big_endian, two, yes};

verus! {

/// A signed number as its bits: the number itself where it is not negative, and otherwise the
/// number that is as far below where the bits run out.
pub open spec fn wrapped(v: int, turn: int) -> int {
    if v < 0 {
        v + turn
    } else {
        v
    }
}

/// The bytes of every kind of value: a tag, and behind it the number, most significant byte
/// first, a length and the bytes, or a length and the items.
#[verifier::rlimit(60)]
pub proof fn law_value_bytes(v: DataV)
    ensures
        v.enc() == (match v {
            DataV::Null => seq![0u8],
            DataV::Array(s) => seq![1u8] + (enc_length(s.count) + s.raw),
            DataV::Structure(s) => seq![2u8] + (enc_length(s.count) + s.raw),
            DataV::Boolean(b) => seq![3u8, yes(b)],
            DataV::BitString(b) => seq![4u8] + (enc_length(b.bits) + b.bytes),
            DataV::DoubleLong(n) => seq![5u8] + four(wrapped(n as int, 0x1_0000_0000) as u32),
            DataV::DoubleLongUnsigned(n) => seq![6u8] + four(n),
            DataV::OctetString(s) => seq![9u8] + (enc_length(s.len()) + s),
            DataV::VisibleString(s) => seq![10u8] + (enc_length(s.len()) + s),
            DataV::Utf8String(s) => seq![12u8] + (enc_length(s.len()) + s),
            DataV::Bcd(n) => seq![13u8, wrapped(n as int, 0x100) as u8],
            DataV::Integer(n) => seq![15u8, wrapped(n as int, 0x100) as u8],
            DataV::Long(n) => seq![16u8] + two(wrapped(n as int, 0x1_0000) as u16),
            DataV::Unsigned(n) => seq![17u8, n],
            DataV::LongUnsigned(n) => seq![18u8] + two(n),
            DataV::CompactArray(c) => seq![19u8] + (c.desc + (enc_length(c.contents.len())
                + c.contents)),
            DataV::Long64(n) => seq![20u8] + be_bytes(
                wrapped(n as int, 0x1_0000_0000_0000_0000) as nat,
                8,
            ),
            DataV::Long64Unsigned(n) => seq![21u8] + be_bytes(n as nat, 8),
            DataV::Enum(n) => seq![22u8, n],
            DataV::Float32(n) => seq![23u8] + four(n),
            DataV::Float64(n) => seq![24u8] + be_bytes(n as nat, 8),
            DataV::DateTime(t) => seq![25u8] + t.wire(),
            DataV::Date(t) => seq![26u8] + t.wire(),
            DataV::Time(t) => seq![27u8] + t.wire(),
            DataV::DeltaInteger(n) => seq![28u8, wrapped(n as int, 0x100) as u8],
            DataV::DeltaLong(n) => seq![29u8] + two(wrapped(n as int, 0x1_0000) as u16),
            DataV::DeltaDoubleLong(n) => seq![30u8] + four(
                wrapped(n as int, 0x1_0000_0000) as u32,
            ),
            DataV::DeltaUnsigned(n) => seq![31u8, n],
            DataV::DeltaLongUnsigned(n) => seq![32u8] + two(n),
            DataV::DeltaDoubleLongUnsigned(n) => seq![33u8] + four(n),
            DataV::DontCare => seq![255u8],
        }),
{
    lemma_bits_of_signed(v);
    match v {
        DataV::DoubleLong(n) => law_numbers_are_big_endian(0, n as u32),
        DataV::DoubleLongUnsigned(n) => law_numbers_are_big_endian(0, n),
        DataV::Float32(n) => law_numbers_are_big_endian(0, n),
        DataV::Long(n) => law_numbers_are_big_endian(n as u16, 0),
        DataV::LongUnsigned(n) => law_numbers_are_big_endian(n, 0),
        DataV::DeltaLong(n) => law_numbers_are_big_endian(n as u16, 0),
        DataV::DeltaLongUnsigned(n) => law_numbers_are_big_endian(n, 0),
        DataV::DeltaDoubleLong(n) => law_numbers_are_big_endian(0, n as u32),
        DataV::DeltaDoubleLongUnsigned(n) => law_numbers_are_big_endian(0, n),
        DataV::Null => assert(v.enc() =~= seq![0u8]),
        DataV::DontCare => assert(v.enc() =~= seq![255u8]),
        DataV::Boolean(b) => assert(v.enc() =~= seq![3u8, yes(b)]),
        DataV::Bcd(n) => assert(v.enc() =~= seq![13u8, n as u8]),
        DataV::Integer(n) => assert(v.enc() =~= seq![15u8, n as u8]),
        DataV::Unsigned(n) => assert(v.enc() =~= seq![17u8, n]),
        DataV::Enum(n) => assert(v.enc() =~= seq![22u8, n]),
        DataV::DeltaInteger(n) => assert(v.enc() =~= seq![28u8, n as u8]),
        DataV::DeltaUnsigned(n) => assert(v.enc() =~= seq![31u8, n]),
        _ => {},
    }
}

proof fn lemma_bits_of_signed(v: DataV)
    ensures
        v matches DataV::DoubleLong(n) ==> n as u32 == wrapped(n as int, 0x1_0000_0000),
        v matches DataV::DeltaDoubleLong(n) ==> n as u32 == wrapped(n as int, 0x1_0000_0000),
        v matches DataV::Long(n) ==> n as u16 == wrapped(n as int, 0x1_0000),
        v matches DataV::DeltaLong(n) ==> n as u16 == wrapped(n as int, 0x1_0000),
        v matches DataV::Integer(n) ==> n as u8 == wrapped(n as int, 0x100),
        v matches DataV::DeltaInteger(n) ==> n as u8 == wrapped(n as int, 0x100),
        v matches DataV::Bcd(n) ==> n as u8 == wrapped(n as int, 0x100),
        v matches DataV::Long64(n) ==> n as u64 == wrapped(n as int, 0x1_0000_0000_0000_0000),
{
    match v {
        DataV::DoubleLong(n) | DataV::DeltaDoubleLong(n) => lemma_signed(0, 0, n, 0),
        DataV::Long(n) | DataV::DeltaLong(n) => lemma_signed(0, n, 0, 0),
        DataV::Integer(n) | DataV::DeltaInteger(n) | DataV::Bcd(n) => lemma_signed(n, 0, 0, 0),
        DataV::Long64(n) => lemma_signed(0, 0, 0, n),
        _ => {},
    }
}

proof fn lemma_signed(a: i8, b: i16, c: i32, d: i64)
    by (bit_vector)
    ensures
        a < 0 ==> (a as u8) as i128 == a as i128 + 0x100i128,
        b < 0 ==> (b as u16) as i128 == b as i128 + 0x1_0000i128,
        c < 0 ==> (c as u32) as i128 == c as i128 + 0x1_0000_0000i128,
        d < 0 ==> (d as u64) as i128 == d as i128 + 0x1_0000_0000_0000_0000i128,
        a >= 0 ==> (a as u8) as i128 == a as i128,
        b >= 0 ==> (b as u16) as i128 == b as i128,
        c >= 0 ==> (c as u32) as i128 == c as i128,
        d >= 0 ==> (d as u64) as i128 == d as i128,
{
}

/// What is read out of a value as a number is the number, where it has one and it fits.
pub proof fn law_numbers_are_read_out(d: Data<'_>)
    ensures
        forall|r: Option<i64>|
            #![trigger call_ensures(Data::as_i64, (&d,), r)]
            call_ensures(Data::as_i64, (&d,), r) ==> match d {
                Data::Integer(n) | Data::DeltaInteger(n) => r == Some(n as i64),
                Data::Long(n) | Data::DeltaLong(n) => r == Some(n as i64),
                Data::DoubleLong(n) | Data::DeltaDoubleLong(n) => r == Some(n as i64),
                Data::Unsigned(n) | Data::DeltaUnsigned(n) | Data::Enum(n) => r == Some(n as i64),
                Data::LongUnsigned(n) | Data::DeltaLongUnsigned(n) => r == Some(n as i64),
                Data::DoubleLongUnsigned(n) | Data::DeltaDoubleLongUnsigned(n) => r == Some(
                    n as i64,
                ),
                Data::Long64(n) => r == Some(n),
                Data::Long64Unsigned(n) => if n <= 0x7FFF_FFFF_FFFF_FFFF {
                    r == Some(n as i64)
                } else {
                    r is None
                },
                _ => r is None,
            },
        forall|r: Option<u64>|
            #![trigger call_ensures(Data::as_u64, (&d,), r)]
            call_ensures(Data::as_u64, (&d,), r) ==> match d {
                Data::Integer(n) | Data::DeltaInteger(n) => r == if n < 0 {
                    None
                } else {
                    Some(n as u64)
                },
                Data::Long(n) | Data::DeltaLong(n) => r == if n < 0 {
                    None
                } else {
                    Some(n as u64)
                },
                Data::DoubleLong(n) | Data::DeltaDoubleLong(n) => r == if n < 0 {
                    None
                } else {
                    Some(n as u64)
                },
                Data::Long64(n) => r == if n < 0 {
                    None
                } else {
                    Some(n as u64)
                },
                Data::Unsigned(n) | Data::DeltaUnsigned(n) | Data::Enum(n) => r == Some(n as u64),
                Data::LongUnsigned(n) | Data::DeltaLongUnsigned(n) => r == Some(n as u64),
                Data::DoubleLongUnsigned(n) | Data::DeltaDoubleLongUnsigned(n) => r == Some(
                    n as u64,
                ),
                Data::Long64Unsigned(n) => r == Some(n),
                _ => r is None,
            },
{
}

/// What else is read out of a value: two decimal digits of a coded decimal, a truth, the
/// bytes of any string, and the items of an array or a structure.
pub proof fn law_values_are_read_out(d: Data<'_>, high: u8, low: u8)
    requires
        high <= 15,
        low <= 15,
    ensures
        forall|r: Option<u8>|
            #![trigger call_ensures(Data::as_bcd, (&d,), r)]
            call_ensures(Data::as_bcd, (&d,), r) ==> match d {
                Data::Bcd(n) => wrapped(n as int, 0x100) == 16 * high + low ==> r == if high <= 9
                    && low <= 9 {
                    Some((10 * high + low) as u8)
                } else {
                    None
                },
                _ => r is None,
            },
        forall|r: Option<bool>|
            #![trigger call_ensures(Data::as_bool, (&d,), r)]
            call_ensures(Data::as_bool, (&d,), r) ==> match d {
                Data::Boolean(b) => r == Some(b),
                _ => r is None,
            },
        forall|r: Option<&[u8]>|
            #![trigger call_ensures(Data::as_bytes, (&d,), r)]
            call_ensures(Data::as_bytes, (&d,), r) ==> match d {
                Data::OctetString(b) => r matches Some(s) && s@ == b@,
                Data::VisibleString(b) => r matches Some(s) && s@ == b@,
                Data::Utf8String(b) => r matches Some(s) && s@ == b@,
                _ => r is None,
            },
{
    if let Data::Bcd(n) = d {
        lemma_signed(n, 0, 0, 0);
    }
}

/// The bits of a bit string count from the most significant of its first byte, and what is
/// read out of it as a number is read in that order.
pub proof fn law_bits_count_from_the_top(b: BitV, i: int)
    requires
        b.bytes.len() == (b.bits + 7) / 8,
    ensures
        0 <= i < b.bits ==> b.bit(i) == ((b.bytes[i / 8] as int / place(i % 8)) % 2 == 1),
        i >= b.bits ==> !b.bit(i),
        b.number(0) == 0,
        0 <= i < b.bits ==> b.number((i + 1) as nat) == 2 * b.number(i as nat) + (if b.bit(i) {
            1int
        } else {
            0
        }),
{
    if 0 <= i && i < b.bits {
        let x = b.bytes[i / 8];
        assert({
            &&& (x & (0x80u8 >> 0u8) != 0) == ((x / 128) % 2 == 1)
            &&& (x & (0x80u8 >> 1u8) != 0) == ((x / 64) % 2 == 1)
            &&& (x & (0x80u8 >> 2u8) != 0) == ((x / 32) % 2 == 1)
            &&& (x & (0x80u8 >> 3u8) != 0) == ((x / 16) % 2 == 1)
            &&& (x & (0x80u8 >> 4u8) != 0) == ((x / 8) % 2 == 1)
            &&& (x & (0x80u8 >> 5u8) != 0) == ((x / 4) % 2 == 1)
            &&& (x & (0x80u8 >> 6u8) != 0) == ((x / 2) % 2 == 1)
            &&& (x & (0x80u8 >> 7u8) != 0) == (x % 2 == 1)
        }) by (bit_vector);
    }
}

/// What a bit of a byte is worth, the most significant first.
pub open spec fn place(k: int) -> int {
    if k == 0 {
        128
    } else if k == 1 {
        64
    } else if k == 2 {
        32
    } else if k == 3 {
        16
    } else if k == 4 {
        8
    } else if k == 5 {
        4
    } else if k == 6 {
        2
    } else {
        1
    }
}

/// The bytes of a date-time stand in this order, the year and the deviation most significant
/// byte first.
pub proof fn law_date_time_bytes(t: DateTime)
    ensures
        t.wire() == two(t.year) + seq![
            t.month,
            t.day_of_month,
            t.day_of_week,
            t.hour,
            t.minute,
            t.second,
            t.hundredths,
        ] + two(wrapped(t.deviation as int, 0x1_0000) as u16) + seq![t.status.0],
{
    let d = t.deviation;
    lemma_signed(0, d, 0, 0);
    assert(t.wire() =~= two(t.year) + seq![
        t.month,
        t.day_of_month,
        t.day_of_week,
        t.hour,
        t.minute,
        t.second,
        t.hundredths,
    ] + two(wrapped(t.deviation as int, 0x1_0000) as u16) + seq![t.status.0]);
}

/// Days are counted one by one from the first of 1970, which was a Thursday; weeks begin on
/// Monday and have seven days.
pub proof fn law_days_are_counted(year: int, month: int, day: int)
    requires
        0 <= year,
        is_civil(year, month, day),
    ensures
        civil_days(1970, 1, 1) == 0,
        iso_weekday(1970, 1, 1) == 4,
        is_civil(year, month, day + 1) ==> civil_days(year, month, day + 1) == civil_days(
            year,
            month,
            day,
        ) + 1,
        is_civil(year, month, day + 1) ==> iso_weekday(year, month, day + 1) == iso_weekday(
            year,
            month,
            day,
        ) % 7 + 1,
        1 <= iso_weekday(year, month, day) <= 7,
        is_leap(year) <==> (year % 4 == 0 && (year % 100 != 0 || year % 400 == 0)),
        month_len(year, 2) == if is_leap(year) {
            29int
        } else {
            28
        },
{
}

/// An instant is counted in seconds: of two that differ in one field, the later is later by
/// what that field counts; and one that is further behind universal time is later by as many
/// minutes.
pub proof fn law_seconds_are_counted(t: DateTime, hour: u8, minute: u8, second: u8, deviation: i16)
    requires
        t.is_instant(),
        deviation != -0x8000,
        t.deviation != -0x8000,
    ensures
        (DateTime { hour, ..t }).unix() - t.unix() == 3600 * (hour - t.hour),
        (DateTime { minute, ..t }).unix() - t.unix() == 60 * (minute - t.minute),
        (DateTime { second, ..t }).unix() - t.unix() == second - t.second,
        (DateTime { deviation, ..t }).unix() - t.unix() == 60 * (deviation - t.deviation),
        t.hour == 0 && t.minute == 0 && t.second == 0 && t.deviation == 0 ==> t.unix() == 86_400
            * civil_days(t.year as int, t.month as int, t.day_of_month as int),
        t.offset_minutes() == Some((-t.deviation) as i16),
{
}

/// What is an instant: a date and a time of day that exist, with nothing left open, and a
/// known deviation. Nothing else has a count of seconds.
pub proof fn law_what_is_an_instant(t: DateTime)
    ensures
        t.is_instant() <==> {
            &&& t.year != 0xFFFF
            &&& 1 <= t.month <= 12
            &&& 1 <= t.day_of_month <= month_len(t.year as int, t.month as int)
            &&& t.hour < 24
            &&& t.minute < 60
            &&& t.second < 60
            &&& t.deviation != -0x8000
        },
        forall|r: Option<i64>|
            #![trigger call_ensures(DateTime::to_unix_seconds, (&t,), r)]
            call_ensures(DateTime::to_unix_seconds, (&t,), r) ==> (r is Some == t.is_instant()) && (
            r matches Some(s) ==> s == t.unix()),
        forall|r: bool|
            #![trigger call_ensures(DateTime::has_wildcard, (&t,), r)]
            call_ensures(DateTime::has_wildcard, (&t,), r) ==> r == (t.year == 0xFFFF || t.month
                >= 0xFD || t.day_of_month >= 0xFD || t.hour == 0xFF || t.minute == 0xFF || t.second
                == 0xFF),
{
}

/// A time that is made of civil fields and an offset has those fields, that offset and the
/// right day of the week, and is an instant where they are those of one.
pub proof fn law_civil_time_is_as_given(
    year: u16,
    month: u8,
    day: u8,
    hour: u8,
    minute: u8,
    second: u8,
    offset: i16,
)
    requires
        offset != i16::MIN,
    ensures
        forall|t: DateTime|
            #![trigger call_ensures(DateTime::from_civil, (year, month, day, hour, minute, second, offset), t)]
            call_ensures(
                DateTime::from_civil,
                (year, month, day, hour, minute, second, offset),
                t,
            ) ==> {
                &&& t.year == year && t.month == month && t.day_of_month == day
                &&& t.hour == hour && t.minute == minute && t.second == second
                &&& t.hundredths == 0xFF && t.status.0 == 0
                &&& t.offset_minutes() == Some(offset)
                &&& is_civil(year as int, month as int, day as int) ==> t.day_of_week
                    == iso_weekday(year as int, month as int, day as int)
                &&& !is_civil(year as int, month as int, day as int) ==> t.day_of_week == 0xFF
            },
{
}

/// What the status of a clock says is in its bits.
pub proof fn law_clock_status_bits(s: ClockStatus)
    ensures
        forall|r: bool|
            #![trigger call_ensures(ClockStatus::invalid, (s,), r)]
            call_ensures(ClockStatus::invalid, (s,), r) ==> r == (s.0 % 2 == 1),
        forall|r: bool|
            #![trigger call_ensures(ClockStatus::doubtful, (s,), r)]
            call_ensures(ClockStatus::doubtful, (s,), r) ==> r == (s.0 / 2 % 2 == 1),
        forall|r: bool|
            #![trigger call_ensures(ClockStatus::different_clock_base, (s,), r)]
            call_ensures(ClockStatus::different_clock_base, (s,), r) ==> r == (s.0 / 4 % 2 == 1),
        forall|r: bool|
            #![trigger call_ensures(ClockStatus::invalid_clock_status, (s,), r)]
            call_ensures(ClockStatus::invalid_clock_status, (s,), r) ==> r == (s.0 / 8 % 2 == 1),
        forall|r: bool|
            #![trigger call_ensures(ClockStatus::daylight_saving_active, (s,), r)]
            call_ensures(ClockStatus::daylight_saving_active, (s,), r) ==> r == (s.0 >= 128),
        forall|r: bool|
            #![trigger call_ensures(ClockStatus::is_not_specified, (s,), r)]
            call_ensures(ClockStatus::is_not_specified, (s,), r) ==> r == (s.0 == 0xFF),
{
    let b = s.0;
    assert({
        &&& (b & 0x01 != 0) == (b % 2 == 1)
        &&& (b & 0x02 != 0) == (b / 2 % 2 == 1)
        &&& (b & 0x04 != 0) == (b / 4 % 2 == 1)
        &&& (b & 0x08 != 0) == (b / 8 % 2 == 1)
        &&& (b & 0x80 != 0) == (b >= 128)
    }) by (bit_vector);
}

/// A value can be rescaled wherever that loses nothing: any value of the same unit under that
/// scaler that is the same amount is the one that comes of it.
pub proof fn law_rescale_is_owed(v: ScaledValue, w: ScaledValue)
    requires
        w.unit == v.unit,
        w.scaler <= v.scaler ==> w.value == v.value * pow10((v.scaler - w.scaler) as nat),
        w.scaler > v.scaler ==> v.value == w.value * pow10((w.scaler - v.scaler) as nat),
    ensures
        v.rescaled(w.scaler) == Some(w),
        pow10(0) == 1,
        forall|e: nat| #[trigger] pow10(e + 1) == 10 * pow10(e),
{
    if w.scaler > v.scaler {
        let p = pow10((w.scaler - v.scaler) as nat) as int;
        lemma_pow10_positive((w.scaler - v.scaler) as nat);
        vstd::arithmetic::div_mod::lemma_fundamental_div_mod_converse(
            v.value as int,
            p,
            w.value as int,
            0,
        );
    }
}

proof fn lemma_pow10_positive(e: nat)
    ensures
        pow10(e) > 0,
    decreases e,
{
    if e > 0 {
        lemma_pow10_positive((e - 1) as nat);
    }
}

/// The number that decimal digits spell.
pub open spec fn spelt(s: Seq<char>) -> nat
    decreases s.len(),
{
    if s.len() == 0 {
        0
    } else {
        10 * spelt(s.drop_last()) + (s.last() as u32 - '0' as u32) as nat
    }
}

proof fn lemma_one_more_digit(t: Seq<char>, d: nat)
    requires
        d < 10,
    ensures
        spelt(t.push(digit_char(d))) == 10 * spelt(t) + d,
{
    assert(t.push(digit_char(d)).drop_last() =~= t);
    assert(digit_char(d) as u32 - '0' as u32 == d);
}

/// A number as text spells that number, and one that is filled up with zeros is as long as it
/// is asked to be and spells the same.
pub proof fn law_text_spells_the_number(n: nat, width: nat)
    ensures
        spelt(decimal(n)) == n,
        spelt(decimal_padded(n, width)) == n,
        decimal_padded(n, width).len() >= width,
        width == 2 && n < 100 ==> decimal_padded(n, width).len() == 2,
        width == 4 && n < 10_000 ==> decimal_padded(n, width).len() == 4,
    decreases n + width,
{
    if n >= 10 {
        law_text_spells_the_number(n / 10, 0);
        lemma_one_more_digit(decimal(n / 10), n % 10);
    } else {
        lemma_one_more_digit(Seq::empty(), n);
        assert(decimal(n) =~= Seq::<char>::empty().push(digit_char(n)));
        assert(spelt(Seq::<char>::empty()) == 0);
    }
    reveal_with_fuel(decimal_padded, 5);
    if width > 1 {
        law_text_spells_the_number(n / 10, (width - 1) as nat);
        lemma_one_more_digit(decimal_padded(n / 10, (width - 1) as nat), n % 10);
    }
}

/// The text of an amount: a minus before a negative one, and then its digits, with as many
/// zeros behind them as its scaler says, or with the point as many places from the end. Read
/// without the point they spell the value.
pub proof fn law_amount_as_text(v: ScaledValue)
    ensures
        v.scaler >= 0 ==> {
            &&& v.digits().len() >= v.scaler
            &&& spelt(v.digits().take(v.digits().len() - v.scaler)) == magnitude(v.value as int)
            &&& forall|i: int|
                v.digits().len() - v.scaler <= i < v.digits().len() ==> #[trigger] v.digits()[i]
                    == '0'
        },
        v.scaler < 0 ==> exists|a: Seq<char>, b: Seq<char>|
            {
                &&& v.digits() == #[trigger] (a + seq!['.'] + b)
                &&& b.len() >= -v.scaler
                &&& spelt(a) * pow10(-v.scaler as nat) + spelt(b) == magnitude(v.value as int)
                &&& spelt(b) < pow10(-v.scaler as nat)
            },
        v.value < 0 ==> v.text().len() > 0 && v.text()[0] == '-',
        v.value >= 0 ==> v.text().take(v.digits().len() as int) == v.digits(),
        v.value < 0 ==> v.text().skip(1).take(v.digits().len() as int) == v.digits(),
{
    reveal_strlit("-");
    reveal_strlit(".");
    reveal_strlit(" ");
    let m = magnitude(v.value as int);
    law_text_spells_the_number(m, 0);
    if v.scaler >= 0 {
        assert(v.digits().take(v.digits().len() - v.scaler) =~= decimal(m));
    } else {
        let places = -v.scaler as nat;
        let p = pow10(places);
        lemma_pow10_positive(places);
        let a = decimal(m / p);
        let b = decimal_padded(m % p, places);
        law_text_spells_the_number(m / p, 0);
        law_text_spells_the_number(m % p, places);
        vstd::arithmetic::div_mod::lemma_fundamental_div_mod(m as int, p as int);
        assert((m / p) * p == p * (m / p)) by (nonlinear_arith);
        assert("."@ =~= seq!['.']);
        assert(v.digits() =~= a + seq!['.'] + b);
    }
    assert(v.value >= 0 ==> v.text().take(v.digits().len() as int) =~= v.digits());
    assert(v.value < 0 ==> v.text().skip(1).take(v.digits().len() as int) =~= v.digits());
}

/// The text of a time: the year, the month and the day, the hour, the minute and the second,
/// each as many digits as it takes or as many stars where it is left open, and then how far
/// it is ahead of universal time or behind it, if that is known.
#[verifier::rlimit(60)]
pub proof fn law_time_as_text(t: DateTime)
    requires
        t.year < 10_000 || t.year == 0xFFFF,
        t.month < 100 || t.month >= 0xFD,
        t.day_of_month < 100 || t.day_of_month >= 0xFD,
        t.hour < 100 || t.hour >= 0xFD,
        t.minute < 100 || t.minute >= 0xFD,
        t.second < 100 || t.second >= 0xFD,
    ensures
        ({
            let s = t.text();
            &&& s.len() >= 19
            &&& s[4] == '-' && s[7] == '-' && s[10] == 'T' && s[13] == ':' && s[16] == ':'
            &&& t.year < 10_000 ==> spelt(s.take(4)) == t.year
            &&& t.year == 0xFFFF ==> s.take(4) == seq!['*', '*', '*', '*']
            &&& t.month < 100 ==> spelt(s.subrange(5, 7)) == t.month
            &&& t.month >= 0xFD ==> s.subrange(5, 7) == seq!['*', '*']
            &&& t.day_of_month < 100 ==> spelt(s.subrange(8, 10)) == t.day_of_month
            &&& t.day_of_month >= 0xFD ==> s.subrange(8, 10) == seq!['*', '*']
            &&& t.hour < 100 ==> spelt(s.subrange(11, 13)) == t.hour
            &&& t.minute < 100 ==> spelt(s.subrange(14, 16)) == t.minute
            &&& t.second < 100 ==> spelt(s.subrange(17, 19)) == t.second
            &&& t.deviation == -0x8000 ==> s.len() == 19
            &&& t.deviation == 0 ==> s.skip(19) == seq!['Z']
            &&& -5999 <= t.deviation < 0 ==> s.len() == 25 && s[19] == '+' && s[22] == ':' && spelt(
                s.subrange(20, 22),
            ) * 60 + spelt(s.subrange(23, 25)) == -t.deviation
            &&& 0 < t.deviation <= 5999 ==> s.len() == 25 && s[19] == '-' && s[22] == ':' && spelt(
                s.subrange(20, 22),
            ) * 60 + spelt(s.subrange(23, 25)) == t.deviation
        }),
{
    reveal_strlit("-");
    reveal_strlit("+");
    reveal_strlit(":");
    reveal_strlit("T");
    reveal_strlit("Z");
    reveal_strlit("*");
    reveal_strlit("**");
    reveal_strlit("****");
    law_text_spells_the_number(t.year as nat, 4);
    law_text_spells_the_number(t.month as nat, 2);
    law_text_spells_the_number(t.day_of_month as nat, 2);
    law_text_spells_the_number(t.hour as nat, 2);
    law_text_spells_the_number(t.minute as nat, 2);
    law_text_spells_the_number(t.second as nat, 2);
    let y = year_text(t.year);
    let (m, d) = (field_text(t.month), field_text(t.day_of_month));
    let (h, n, x) = (field_text(t.hour), field_text(t.minute), field_text(t.second));
    assert(y.len() == 4 && m.len() == 2 && d.len() == 2 && h.len() == 2 && n.len() == 2 && x.len()
        == 2);
    let s = t.text();
    let o = t.offset_text();
    assert(s.take(4) =~= y);
    assert(s.subrange(5, 7) =~= m);
    assert(s.subrange(8, 10) =~= d);
    assert(s.subrange(11, 13) =~= h);
    assert(s.subrange(14, 16) =~= n);
    assert(s.subrange(17, 19) =~= x);
    assert(s.skip(19) =~= o);
    if t.deviation != -0x8000 && t.deviation != 0 && -5999 <= t.deviation && t.deviation <= 5999 {
        let a = if t.deviation < 0 {
            -t.deviation
        } else {
            t.deviation as int
        };
        law_text_spells_the_number((a / 60) as nat, 2);
        law_text_spells_the_number((a % 60) as nat, 2);
        assert(o.subrange(1, 3) =~= decimal_padded((a / 60) as nat, 2));
        assert(o.subrange(4, 6) =~= decimal_padded((a % 60) as nat, 2));
        assert(s.subrange(20, 22) =~= o.subrange(1, 3));
        assert(s.subrange(23, 25) =~= o.subrange(4, 6));
        assert(s[19] == o[0] && s[22] == o[3]);
    }
}

/// A value is opened as what it is and as nothing else: a list as a list, a structure as a
/// structure, text as its bytes where they are text, a name where there are six bytes of it,
/// and a bit string as the number that its bits make, up to the largest that fits.
pub proof fn law_values_are_opened_as_what_they_are(d: &Data<'_>, b: &BitStr<'_>)
    ensures
        forall|r: Option<DataSeq<'_>>|
            #![trigger call_ensures(Data::<'_>::as_structure, (d,), r)]
            call_ensures(Data::<'_>::as_structure, (d,), r) ==> (r is Some <==> d@ is Structure) && (
            r is Some ==> r->0@ == d@->Structure_0),
        forall|r: Option<DataSeq<'_>>|
            #![trigger call_ensures(Data::<'_>::as_array, (d,), r)]
            call_ensures(Data::<'_>::as_array, (d,), r) ==> (r is Some <==> d@ is Array) && (r is Some
                ==> r->0@ == d@->Array_0),
        forall|r: Option<DataSeq<'_>>|
            #![trigger call_ensures(Data::<'_>::as_seq, (d,), r)]
            call_ensures(Data::<'_>::as_seq, (d,), r) ==> (r is Some <==> d@ is Structure || d@ is Array)
                && (r is Some ==> r->0@ == if d@ is Array {
                d@->Array_0
            } else {
                d@->Structure_0
            }),
        forall|r: Option<Obis>|
            #![trigger call_ensures(Data::<'_>::as_obis, (d,), r)]
            call_ensures(Data::<'_>::as_obis, (d,), r) ==> {
                &&& d@ is OctetString ==> (r is Some <==> d@->OctetString_0.len() == 6)
                &&& d@ is OctetString && r is Some ==> r->0@ == d@->OctetString_0
                &&& r is Some ==> d@ is OctetString || d@ is VisibleString || d@ is Utf8String
            },
        forall|r: Option<&str>|
            #![trigger call_ensures(Data::<'_>::as_str, (d,), r)]
            call_ensures(Data::<'_>::as_str, (d,), r) ==> {
                &&& d@ is VisibleString && r is Some ==> r->0.spec_bytes() == d@->VisibleString_0
                &&& d@ is VisibleString && r is None ==> !vstd::utf8::valid_utf8(
                    d@->VisibleString_0,
                )
                &&& d@ is Utf8String && r is Some ==> r->0.spec_bytes() == d@->Utf8String_0
                &&& d@ is Utf8String && r is None ==> !vstd::utf8::valid_utf8(d@->Utf8String_0)
                &&& r is Some ==> d@ is OctetString || d@ is VisibleString || d@ is Utf8String
            },
        forall|v: u32|
            #![trigger call_ensures(BitStr::<'_>::to_u32, (b,), v)]
            call_ensures(BitStr::<'_>::to_u32, (b,), v) && b@.number(b@.bits) <= 0xFFFF_FFFF ==> v
                == b@.number(b@.bits),
{
}

/// A clock is ahead of the standard time by the opposite of its deviation, unless none is
/// given; and a time that leaves everything open gives none.
pub proof fn law_offset_is_as_given(t: DateTime)
    ensures
        forall|r: Option<i16>|
            #![trigger call_ensures(DateTime::utc_offset_minutes, (&t,), r)]
            call_ensures(DateTime::utc_offset_minutes, (&t,), r) ==> (r is None <==> t.deviation
                == -0x8000) && (r is Some ==> r->0 + t.deviation == 0),
        DateTime::WILDCARD().deviation == -0x8000,
        DateTime::WILDCARD().year == 0xFFFF,
        DateTime::WILDCARD().hour == 0xFF && DateTime::WILDCARD().minute == 0xFF
            && DateTime::WILDCARD().second == 0xFF,
        DateTime::WILDCARD().month == 0xFF && DateTime::WILDCARD().day_of_month == 0xFF
            && DateTime::WILDCARD().day_of_week == 0xFF,
        ClockStatus::NOT_SPECIFIED().0 == 0xFF,
{
}

} // verus!
