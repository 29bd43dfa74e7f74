//! COSEM date and time.
//!
//! These are not calendar types. Every field may be a wildcard — a schedule says "the
//! last day of any month at 06:00" by putting `0xFF` in the year and `0xFE` in the day —
//! and the deviation from UTC may be absent. Converting one to a civil timestamp is
//! therefore fallible: the conversions in this module return `Option`, and the wildcard
//! is preserved on the way back out.

use vstd::prelude::*;

use crate::text::{push_decimal_padded, push_text};
#[allow(unused_imports)]
use crate::text::decimal_padded;

verus! {

/// Clock status flags carried by a date-time.
#[derive(Debug, Clone, Copy, PartialEq, Eq, Structural)]
pub struct ClockStatus(pub u8);

impl Default for ClockStatus {
    fn default() -> (s: Self)
        ensures
            s == ClockStatus(0),
    {
        ClockStatus(0)
    }
}

impl ClockStatus {
    /// The value meaning "no status information".
    #[allow(non_snake_case)]
    #[verifier::allow_in_spec]
    #[must_use]
    pub fn NOT_SPECIFIED() -> ClockStatus
        returns
            ClockStatus(0xFF),
    {
        ClockStatus(0xFF)
    }

    /// The clock is not synchronised and its value must not be trusted.
    #[must_use]
    pub fn invalid(self) -> (r: bool)
        ensures
            r == (self.0 & 0x01 != 0),
    {
        self.0 & 0x01 != 0
    }

    /// The clock may have drifted beyond the accepted tolerance.
    #[must_use]
    pub fn doubtful(self) -> (r: bool)
        ensures
            r == (self.0 & 0x02 != 0),
    {
        self.0 & 0x02 != 0
    }

    /// The value comes from a different clock base than the meter's own.
    #[must_use]
    pub fn different_clock_base(self) -> (r: bool)
        ensures
            r == (self.0 & 0x04 != 0),
    {
        self.0 & 0x04 != 0
    }

    /// The status bits themselves are unreliable.
    #[must_use]
    pub fn invalid_clock_status(self) -> (r: bool)
        ensures
            r == (self.0 & 0x08 != 0),
    {
        self.0 & 0x08 != 0
    }

    /// Daylight saving is in effect, so the deviation includes the summer-time offset.
    #[must_use]
    pub fn daylight_saving_active(self) -> (r: bool)
        ensures
            r == (self.0 & 0x80 != 0),
    {
        self.0 & 0x80 != 0
    }

    /// True when no status was given.
    #[must_use]
    pub fn is_not_specified(self) -> (r: bool)
        ensures
            r == (self == ClockStatus::NOT_SPECIFIED()),
    {
        self.0 == 0xFF
    }
}

/// The value of the deviation field that means "not specified".
pub const DEVIATION_NOT_SPECIFIED: i16 = -0x8000;

/// The twelve-byte COSEM date-time.
///
/// Fields are stored exactly as they arrived, wildcards included, so an encode after a
/// decode is byte-identical.
#[derive(Debug, Clone, Copy, PartialEq, Eq, Structural)]
pub struct DateTime {
    /// Year, or `0xFFFF` for "not specified".
    pub year: u16,
    /// Month 1–12; `0xFD` daylight-saving end, `0xFE` daylight-saving begin, `0xFF` any.
    pub month: u8,
    /// Day 1–31; `0xFD` second-last day of month, `0xFE` last day of month, `0xFF` any.
    pub day_of_month: u8,
    /// Day of week 1 (Monday) – 7 (Sunday), or `0xFF` for any.
    pub day_of_week: u8,
    /// Hour 0–23, or `0xFF`.
    pub hour: u8,
    /// Minute 0–59, or `0xFF`.
    pub minute: u8,
    /// Second 0–59, or `0xFF`.
    pub second: u8,
    /// Hundredths of a second 0–99, or `0xFF`.
    pub hundredths: u8,
    /// Minutes *behind* UTC — local time = UTC − deviation — or `0x8000` when absent.
    pub deviation: i16,
    /// Clock status.
    pub status: ClockStatus,
}

/// Whether a year has a 29 February.
pub open spec fn is_leap(year: int) -> bool {
    year % 4 == 0 && (year % 100 != 0 || year % 400 == 0)
}

/// How many days a month has; zero for a month that does not exist.
pub open spec fn month_len(year: int, month: int) -> int {
    if month == 2 {
        if is_leap(year) {
            29
        } else {
            28
        }
    } else if month == 4 || month == 6 || month == 9 || month == 11 {
        30
    } else if 1 <= month <= 12 {
        31
    } else {
        0
    }
}

/// A date that exists.
pub open spec fn is_civil(year: int, month: int, day: int) -> bool {
    1 <= month <= 12 && 1 <= day <= month_len(year, month)
}

/// How many days the months before `month` have in a year.
pub open spec fn days_before_month(year: int, month: int) -> int
    decreases month,
{
    if month <= 1 {
        0
    } else {
        days_before_month(year, month - 1) + month_len(year, month - 1)
    }
}

/// How many days the years from 0 up to, and not including, `year` have: 365 each, and
/// one more for each leap year among them.
pub open spec fn days_before_year(year: int) -> int {
    365 * year + (year + 3) / 4 - (year + 99) / 100 + (year + 399) / 400
}

/// Days from 1970-01-01 to a date.
pub open spec fn civil_days(year: int, month: int, day: int) -> int {
    days_before_year(year) - days_before_year(1970) + days_before_month(year, month) + day - 1
}

/// ISO day of week, 1 = Monday, and `0xFF` for a date that is not a real one.
/// 1970-01-01 was a Thursday, day 4.
pub open spec fn iso_weekday(year: int, month: int, day: int) -> int {
    if is_civil(year, month, day) {
        (civil_days(year, month, day) + 3) % 7 + 1
    } else {
        0xFF
    }
}

/// Each year begins where the one before it ends.
pub proof fn law_years_are_contiguous(year: int)
    requires
        0 <= year,
    ensures
        days_before_year(year + 1) == days_before_year(year) + (if is_leap(year) {
            366int
        } else {
            365
        }),
{
    lemma_leap_years(year);
    assert((year + 4) / 4 == year / 4 + 1);
    assert((year + 100) / 100 == year / 100 + 1);
    assert((year + 400) / 400 == year / 400 + 1);
}

/// The day after the last of a month is the first of the next.
pub proof fn law_months_are_contiguous(year: int, month: int)
    requires
        0 <= year,
        1 <= month <= 12,
    ensures
        month < 12 ==> civil_days(year, month, month_len(year, month)) + 1 == civil_days(
            year,
            month + 1,
            1,
        ),
        month == 12 ==> civil_days(year, month, month_len(year, month)) + 1 == civil_days(
            year + 1,
            1,
            1,
        ),
{
    if month == 12 {
        law_years_are_contiguous(year);
        lemma_year_len(year);
    }
}

/// The months of a year come to its length.
proof fn lemma_year_len(year: int)
    ensures
        days_before_month(year, 12) + 31 == (if is_leap(year) {
            366int
        } else {
            365
        }),
{
    reveal_with_fuel(days_before_month, 13);
}

impl DateTime {
    /// The value in which every field is a wildcard.
    #[allow(non_snake_case)]
    #[verifier::allow_in_spec]
    #[must_use]
    pub fn WILDCARD() -> DateTime
        returns
            (DateTime {
                year: 0xFFFF,
                month: 0xFF,
                day_of_month: 0xFF,
                day_of_week: 0xFF,
                hour: 0xFF,
                minute: 0xFF,
                second: 0xFF,
                hundredths: 0xFF,
                deviation: DEVIATION_NOT_SPECIFIED,
                status: ClockStatus(0xFF),
            }),
    {
        DateTime {
            year: 0xFFFF,
            month: 0xFF,
            day_of_month: 0xFF,
            day_of_week: 0xFF,
            hour: 0xFF,
            minute: 0xFF,
            second: 0xFF,
            hundredths: 0xFF,
            deviation: DEVIATION_NOT_SPECIFIED,
            status: ClockStatus(0xFF),
        }
    }

    /// The twelve wire bytes.
    pub open spec fn wire(self) -> Seq<u8> {
        seq![
            (self.year / 256) as u8,
            (self.year % 256) as u8,
            self.month,
            self.day_of_month,
            self.day_of_week,
            self.hour,
            self.minute,
            self.second,
            self.hundredths,
            ((self.deviation as u16) / 256) as u8,
            ((self.deviation as u16) % 256) as u8,
            self.status.0,
        ]
    }

    /// The value twelve wire bytes stand for.
    pub open spec fn of_wire(b: Seq<u8>) -> DateTime {
        DateTime {
            year: (b[0] * 256 + b[1]) as u16,
            month: b[2],
            day_of_month: b[3],
            day_of_week: b[4],
            hour: b[5],
            minute: b[6],
            second: b[7],
            hundredths: b[8],
            deviation: ((b[9] * 256 + b[10]) as u16) as i16,
            status: ClockStatus(b[11]),
        }
    }

    /// Decode from the twelve wire bytes. Cannot fail: every bit pattern is a value.
    #[must_use]
    pub fn from_bytes(b: [u8; 12]) -> (d: Self)
        ensures
            d == DateTime::of_wire(b@),
    {
        DateTime {
            year: b[0] as u16 * 256 + b[1] as u16,
            month: b[2],
            day_of_month: b[3],
            day_of_week: b[4],
            hour: b[5],
            minute: b[6],
            second: b[7],
            hundredths: b[8],
            deviation: (b[9] as u16 * 256 + b[10] as u16) as i16,
            status: ClockStatus(b[11]),
        }
    }

    /// Encode to the twelve wire bytes.
    #[must_use]
    pub fn to_bytes(self) -> (b: [u8; 12])
        ensures
            b@ == self.wire(),
    {
        let d: u16 = self.deviation as u16;
        let b: [u8; 12] = [
            (self.year / 256) as u8,
            (self.year % 256) as u8,
            self.month,
            self.day_of_month,
            self.day_of_week,
            self.hour,
            self.minute,
            self.second,
            self.hundredths,
            (d / 256) as u8,
            (d % 256) as u8,
            self.status.0,
        ];
        assert(b@ =~= self.wire());
        b
    }

    /// A pattern rather than a timestamp: some field is a wildcard.
    pub open spec fn wild(self) -> bool {
        self.year == 0xFFFF || self.month >= 0xFD || self.day_of_month >= 0xFD || self.hour == 0xFF
            || self.minute == 0xFF || self.second == 0xFF
    }

    /// True when any field is a wildcard, which is what makes this a pattern rather
    /// than a timestamp.
    #[must_use]
    pub fn has_wildcard(&self) -> (r: bool)
        ensures
            r == self.wild(),
    {
        self.year == 0xFFFF || self.month >= 0xFD || self.day_of_month >= 0xFD || self.hour == 0xFF
            || self.minute == 0xFF || self.second == 0xFF
    }

    /// The offset from UTC in minutes, when one was given.
    pub open spec fn offset_minutes(self) -> Option<i16> {
        if self.deviation == DEVIATION_NOT_SPECIFIED {
            None
        } else {
            Some((-self.deviation) as i16)
        }
    }

    /// The offset from UTC in minutes, when one was given.
    #[must_use]
    pub fn utc_offset_minutes(&self) -> (r: Option<i16>)
        ensures
            r == self.offset_minutes(),
    {
        if self.deviation == DEVIATION_NOT_SPECIFIED {
            None
        } else {
            Some(-self.deviation)
        }
    }

    /// A point in time: a date that exists, a time of day that exists, no wildcard, and
    /// a known deviation.
    pub open spec fn is_instant(self) -> bool {
        !self.wild() && self.offset_minutes() is Some && is_civil(
            self.year as int,
            self.month as int,
            self.day_of_month as int,
        ) && self.hour <= 23 && self.minute <= 59 && self.second <= 59
    }

    /// Seconds since the Unix epoch of a point in time.
    pub open spec fn unix(self) -> int {
        civil_days(self.year as int, self.month as int, self.day_of_month as int) * 86_400
            + self.hour * 3600 + self.minute * 60 + self.second - self.offset_minutes()->0 * 60
    }

    /// Seconds since the Unix epoch, when this is a complete civil timestamp with a
    /// known deviation.
    ///
    /// `None` for anything with a wildcard or without a deviation — a value that is
    /// missing its offset is not a point in time — and for a leap second, which is not
    /// representable as a Unix timestamp.
    #[must_use]
    pub fn to_unix_seconds(&self) -> (r: Option<i64>)
        ensures
            (r is Some) == self.is_instant(),
            r matches Some(s) ==> s == self.unix(),
    {
        if self.has_wildcard() {
            return None;
        }
        let offset: i16 = match self.utc_offset_minutes() {
            Some(o) => o,
            None => return None,
        };
        if self.month == 0 || self.month > 12 || self.day_of_month == 0 {
            return None;
        }
        if self.day_of_month > days_in_month(self.year, self.month) {
            return None;
        }
        if self.hour > 23 || self.minute > 59 || self.second > 59 {
            return None;
        }
        let days: i32 = days_from_civil(self.year as i32, self.month, self.day_of_month);
        let secs: i64 = days as i64 * 86_400 + self.hour as i64 * 3600 + self.minute as i64 * 60
            + self.second as i64;
        Some(secs - offset as i64 * 60)
    }

    /// Build a complete timestamp from civil fields and an offset in minutes.
    #[must_use]
    pub fn from_civil(
        year: u16,
        month: u8,
        day: u8,
        hour: u8,
        minute: u8,
        second: u8,
        utc_offset_minutes: i16,
    ) -> (d: Self)
        requires
            utc_offset_minutes != i16::MIN,
        ensures
            d == (DateTime {
                year,
                month,
                day_of_month: day,
                day_of_week: iso_weekday(year as int, month as int, day as int) as u8,
                hour,
                minute,
                second,
                hundredths: 0xFF,
                deviation: (-utc_offset_minutes) as i16,
                status: ClockStatus(0),
            }),
    {
        DateTime {
            year,
            month,
            day_of_month: day,
            day_of_week: day_of_week(year as i32, month, day),
            hour,
            minute,
            second,
            hundredths: 0xFF,
            deviation: -utc_offset_minutes,
            status: ClockStatus(0),
        }
    }

    /// The text of the offset: nothing when absent, `Z` for none, else signed hours and
    /// minutes.
    pub open spec fn offset_text(self) -> Seq<char> {
        match self.offset_minutes() {
            None => Seq::empty(),
            Some(m) => if m == 0 {
                "Z"@
            } else {
                (if m < 0 {
                    "-"@
                } else {
                    "+"@
                }) + decimal_padded((abs(m as int) / 60) as nat, 2) + ":"@ + decimal_padded(
                    (abs(m as int) % 60) as nat,
                    2,
                )
            },
        }
    }

    /// The text of a date-time.
    pub open spec fn text(self) -> Seq<char> {
        year_text(self.year) + "-"@ + field_text(self.month) + "-"@ + field_text(self.day_of_month)
            + "T"@ + field_text(self.hour) + ":"@ + field_text(self.minute) + ":"@ + field_text(
            self.second,
        ) + self.offset_text()
    }

    /// The date-time as text, wildcards as `*`.
    pub fn to_string(&self) -> (s: String)
        ensures
            s@ == self.text(),
    {
        let mut s = String::new();
        push_year(&mut s, self.year);
        push_text(&mut s, "-");
        wildcard_or(self.month, &mut s);
        push_text(&mut s, "-");
        wildcard_or(self.day_of_month, &mut s);
        push_text(&mut s, "T");
        wildcard_or(self.hour, &mut s);
        push_text(&mut s, ":");
        wildcard_or(self.minute, &mut s);
        push_text(&mut s, ":");
        wildcard_or(self.second, &mut s);
        let ghost before = s@;
        match self.utc_offset_minutes() {
            None => {
                assert(s@ =~= before + self.offset_text());
            },
            Some(m) => {
                if m == 0 {
                    push_text(&mut s, "Z");
                } else {
                    let a: u16 = if m < 0 {
                        (0 - m as i32) as u16
                    } else {
                        m as u16
                    };
                    if m < 0 {
                        push_text(&mut s, "-");
                    } else {
                        push_text(&mut s, "+");
                    }
                    push_decimal_padded(&mut s, (a / 60) as u64, 2);
                    push_text(&mut s, ":");
                    push_decimal_padded(&mut s, (a % 60) as u64, 2);
                }
                assert(s@ =~= before + self.offset_text());
            },
        }
        assert(s@ =~= self.text());
        s
    }
}

/// The absolute value.
pub open spec fn abs(x: int) -> int {
    if x < 0 {
        -x
    } else {
        x
    }
}

/// A year as text, or four stars.
pub open spec fn year_text(year: u16) -> Seq<char> {
    if year == 0xFFFF {
        "****"@
    } else {
        decimal_padded(year as nat, 4)
    }
}

/// A two-digit field as text, or two stars.
pub open spec fn field_text(v: u8) -> Seq<char> {
    if v >= 0xFD {
        "**"@
    } else {
        decimal_padded(v as nat, 2)
    }
}

fn push_year(s: &mut String, year: u16)
    ensures
        final(s)@ == old(s)@ + year_text(year),
{
    if year == 0xFFFF {
        push_text(s, "****");
    } else {
        push_decimal_padded(s, year as u64, 4);
    }
}

/// Print a field, or as many `*` as it is wide when it is a wildcard.
fn wildcard_or(v: u8, s: &mut String)
    ensures
        final(s)@ == old(s)@ + field_text(v),
{
    if v >= 0xFD {
        push_text(s, "**");
    } else {
        push_decimal_padded(s, v as u64, 2);
    }
}

/// The five-byte COSEM date.
#[derive(Debug, Clone, Copy, PartialEq, Eq, Structural)]
pub struct Date {
    /// Year, or `0xFFFF`.
    pub year: u16,
    /// Month, with the same wildcards as [`DateTime::month`].
    pub month: u8,
    /// Day of month, with the same wildcards as [`DateTime::day_of_month`].
    pub day_of_month: u8,
    /// Day of week, or `0xFF`.
    pub day_of_week: u8,
}

impl Date {
    /// The five wire bytes.
    pub open spec fn wire(self) -> Seq<u8> {
        seq![
            (self.year / 256) as u8,
            (self.year % 256) as u8,
            self.month,
            self.day_of_month,
            self.day_of_week,
        ]
    }

    /// The value five wire bytes stand for.
    pub open spec fn of_wire(b: Seq<u8>) -> Date {
        Date {
            year: (b[0] * 256 + b[1]) as u16,
            month: b[2],
            day_of_month: b[3],
            day_of_week: b[4],
        }
    }

    /// Decode from the five wire bytes.
    #[must_use]
    pub fn from_bytes(b: [u8; 5]) -> (d: Self)
        ensures
            d == Date::of_wire(b@),
    {
        Date {
            year: b[0] as u16 * 256 + b[1] as u16,
            month: b[2],
            day_of_month: b[3],
            day_of_week: b[4],
        }
    }

    /// Encode to the five wire bytes.
    #[must_use]
    pub fn to_bytes(self) -> (b: [u8; 5])
        ensures
            b@ == self.wire(),
    {
        let b: [u8; 5] = [
            (self.year / 256) as u8,
            (self.year % 256) as u8,
            self.month,
            self.day_of_month,
            self.day_of_week,
        ];
        assert(b@ =~= self.wire());
        b
    }

    /// The text of a date.
    pub open spec fn text(self) -> Seq<char> {
        year_text(self.year) + "-"@ + field_text(self.month) + "-"@ + field_text(self.day_of_month)
    }

    /// The date as text, wildcards as `*`.
    pub fn to_string(&self) -> (s: String)
        ensures
            s@ == self.text(),
    {
        let mut s = String::new();
        push_year(&mut s, self.year);
        push_text(&mut s, "-");
        wildcard_or(self.month, &mut s);
        push_text(&mut s, "-");
        wildcard_or(self.day_of_month, &mut s);
        assert(s@ =~= self.text());
        s
    }
}

/// The four-byte COSEM time.
#[derive(Debug, Clone, Copy, PartialEq, Eq, Structural)]
pub struct Time {
    /// Hour, or `0xFF`.
    pub hour: u8,
    /// Minute, or `0xFF`.
    pub minute: u8,
    /// Second, or `0xFF`.
    pub second: u8,
    /// Hundredths, or `0xFF`.
    pub hundredths: u8,
}

impl Time {
    /// The four wire bytes.
    pub open spec fn wire(self) -> Seq<u8> {
        seq![self.hour, self.minute, self.second, self.hundredths]
    }

    /// The value four wire bytes stand for.
    pub open spec fn of_wire(b: Seq<u8>) -> Time {
        Time { hour: b[0], minute: b[1], second: b[2], hundredths: b[3] }
    }

    /// Decode from the four wire bytes.
    #[must_use]
    pub fn from_bytes(b: [u8; 4]) -> (t: Self)
        ensures
            t == Time::of_wire(b@),
    {
        Time { hour: b[0], minute: b[1], second: b[2], hundredths: b[3] }
    }

    /// Encode to the four wire bytes.
    #[must_use]
    pub fn to_bytes(self) -> (b: [u8; 4])
        ensures
            b@ == self.wire(),
    {
        let b: [u8; 4] = [self.hour, self.minute, self.second, self.hundredths];
        assert(b@ =~= self.wire());
        b
    }

    /// The text of a time.
    pub open spec fn text(self) -> Seq<char> {
        field_text(self.hour) + ":"@ + field_text(self.minute) + ":"@ + field_text(self.second)
    }

    /// The time as text, wildcards as `*`.
    pub fn to_string(&self) -> (s: String)
        ensures
            s@ == self.text(),
    {
        let mut s = String::new();
        wildcard_or(self.hour, &mut s);
        push_text(&mut s, ":");
        wildcard_or(self.minute, &mut s);
        push_text(&mut s, ":");
        wildcard_or(self.second, &mut s);
        assert(s@ =~= self.text());
        s
    }
}

/// How many days the month has, leap years included.
pub fn days_in_month(year: u16, month: u8) -> (n: u8)
    ensures
        n == month_len(year as int, month as int),
{
    match month {
        1 | 3 | 5 | 7 | 8 | 10 | 12 => 31,
        4 | 6 | 9 | 11 => 30,
        2 => if year % 4 == 0 && (year % 100 != 0 || year % 400 == 0) {
            29
        } else {
            28
        },
        _ => 0,
    }
}

/// The days before a month, counted from the March that opens its year of months.
proof fn lemma_day_of_march_year(year: int, m: int)
    requires
        1 <= m <= 12,
    ensures
        m <= 2 ==> (153 * ((m + 9) % 12) + 2) / 5 == days_before_month(year, m) + 306,
        m > 2 ==> (153 * ((m + 9) % 12) + 2) / 5 + 59 + (if is_leap(year) {
            1int
        } else {
            0
        }) == days_before_month(year, m),
{
    reveal_with_fuel(days_before_month, 13);
    if m == 1 {
    } else if m == 2 {
    } else if m == 3 {
    } else if m == 4 {
    } else if m == 5 {
    } else if m == 6 {
    } else if m == 7 {
    } else if m == 8 {
    } else if m == 9 {
    } else if m == 10 {
    } else if m == 11 {
    } else {
    }
}

/// Whole eras of 400 years, and what is left of the last one.
proof fn lemma_era(z: int)
    requires
        0 <= z,
    ensures
        ({
            let e = z / 400;
            let r = z - e * 400;
            &&& 0 <= r < 400
            &&& e * 146_097 + r * 365 + r / 4 - r / 100 == 365 * z + z / 4 - z / 100 + z / 400
        }),
{
    let e = z / 400;
    let r = z - e * 400;
    lemma_of_quotient(z, 4, 100 * e + r / 4, r % 4);
    lemma_of_quotient(z, 100, 4 * e + r / 100, r % 100);
}

/// Counting from March of the year before, in eras of 400 years, comes to the same day.
proof fn lemma_march_years(year: int, m: int, d: int)
    requires
        0 <= year <= 0xFFFF,
        1 <= m <= 12,
    ensures
        ({
            let z = if m <= 2 { year + 399 } else { year + 400 };
            let e = z / 400;
            let r = z - e * 400;
            let doy = (153 * ((m + 9) % 12) + 2) / 5 + d - 1;
            &&& 0 <= e <= 165
            &&& 0 <= r < 400
            &&& 0 <= (153 * ((m + 9) % 12) + 2) / 5 <= 340
            &&& e * 146_097 + (r * 365 + r / 4 - r / 100 + doy) - 719_468 - 146_097 == civil_days(
                year,
                m,
                d,
            )
        }),
{
    let z = if m <= 2 { year + 399 } else { year + 400 };
    lemma_day_of_march_year(year, m);
    lemma_era(z);
    assert(days_before_year(1970) == 719_528);
    if m <= 2 {
        lemma_of_quotient(z, 4, (year + 3) / 4 + 99, (year + 3) % 4);
        lemma_of_quotient(z, 100, (year + 99) / 100 + 3, (year + 99) % 100);
    } else {
        lemma_leap_years(year);
        lemma_of_quotient(z, 4, year / 4 + 100, year % 4);
        lemma_of_quotient(z, 100, year / 100 + 4, year % 100);
        lemma_of_quotient(z, 400, year / 400 + 1, year % 400);
    }
}

/// The leap years before a year, from the quotients of the year itself.
proof fn lemma_leap_years(year: int)
    requires
        0 <= year,
    ensures
        days_before_year(year) == 365 * year + year / 4 - year / 100 + year / 400 + (if is_leap(
            year,
        ) {
            0int
        } else {
            1
        }),
{
    lemma_rounded_up(year, 4);
    lemma_rounded_up(year, 100);
    lemma_rounded_up(year, 400);
    if year % 100 == 0 {
        lemma_of_quotient(year, 4, 25 * (year / 100), 0);
    }
    if year % 400 == 0 {
        lemma_of_quotient(year, 100, 4 * (year / 400), 0);
    }
}

/// The quotient and the remainder are the only ones there are.
proof fn lemma_of_quotient(x: int, k: int, q: int, r: int)
    requires
        0 <= r < k,
        x == q * k + r,
    ensures
        x / k == q,
        x % k == r,
{
    vstd::arithmetic::div_mod::lemma_fundamental_div_mod_converse(x, k, q, r);
}

/// A quotient rounded up is one more than the quotient, unless nothing is left over.
proof fn lemma_rounded_up(x: int, k: int)
    requires
        0 <= x,
        0 < k,
    ensures
        (x + k - 1) / k == x / k + (if x % k == 0 {
            0int
        } else {
            1
        }),
{
    let q = x / k;
    let r = x % k;
    vstd::arithmetic::div_mod::lemma_fundamental_div_mod(x, k);
    assert(x == q * k + r) by (nonlinear_arith)
        requires
            x == k * q + r,
    ;
    if r == 0 {
        lemma_of_quotient(x + k - 1, k, q, k - 1);
    } else {
        assert((q + 1) * k == q * k + k) by (nonlinear_arith);
        lemma_of_quotient(x + k - 1, k, q + 1, r - 1);
    }
}

/// Days from 1970-01-01 to a civil date, counting years from March so that a leap day
/// is the last of its year.
pub fn days_from_civil(y: i32, m: u8, d: u8) -> (n: i32)
    requires
        0 <= y <= 0xFFFF,
        is_civil(y as int, m as int, d as int),
    ensures
        n == civil_days(y as int, m as int, d as int),
{
    let m: i32 = m as i32;
    let d: i32 = d as i32;
    let ghost y0 = y;
    // 400 years on, so that January and February of year 0 count from a year that is not
    // negative.
    let y: i32 = if m <= 2 {
        y + 399
    } else {
        y + 400
    };
    let era: i32 = y / 400;
    let yoe: i32 = y - era * 400;
    let mp: i32 = (m + 9) % 12;
    let doy: i32 = (153 * mp + 2) / 5 + d - 1;
    let doe: i32 = yoe * 365 + yoe / 4 - yoe / 100 + doy;
    proof {
        lemma_march_years(y0 as int, m as int, d as int);
    }
    era * 146_097 + doe - 719_468 - 146_097
}

/// ISO day of week, 1 = Monday. `0xFF` when the date is not a real one.
pub fn day_of_week(y: i32, m: u8, d: u8) -> (n: u8)
    requires
        0 <= y <= 0xFFFF,
    ensures
        n == iso_weekday(y as int, m as int, d as int),
{
    if m == 0 || m > 12 || d == 0 || d > days_in_month(y as u16, m) {
        return 0xFF;
    }
    let days: i32 = days_from_civil(y, m, d);
    proof {
        reveal_with_fuel(days_before_month, 13);
    }
    let x: i32 = (days + 3 + 7_000_000) % 7;
    (x + 1) as u8
}

/// A date-time, a date and a time each read back from their wire bytes.
pub proof fn law_wire_round_trip(a: DateTime, b: Date, c: Time)
    ensures
        DateTime::of_wire(a.wire()) == a,
        Date::of_wire(b.wire()) == b,
        Time::of_wire(c.wire()) == c,
{
    let d = a.deviation;
    assert((d as u16) as i16 == d) by (bit_vector);
}

/// Any twelve, five or four bytes are written back byte for byte, wildcards included.
pub proof fn law_wire_is_preserved(a: Seq<u8>, b: Seq<u8>, c: Seq<u8>)
    requires
        a.len() == 12,
        b.len() == 5,
        c.len() == 4,
    ensures
        DateTime::of_wire(a).wire() == a,
        Date::of_wire(b).wire() == b,
        Time::of_wire(c).wire() == c,
{
    let d = (a[9] * 256 + a[10]) as u16;
    assert((d as i16) as u16 == d) by (bit_vector);
    assert(DateTime::of_wire(a).wire() =~= a);
    assert(Date::of_wire(b).wire() =~= b);
    assert(Time::of_wire(c).wire() =~= c);
}

} // verus!
