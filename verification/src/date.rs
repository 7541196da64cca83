//! Calendar dates and the mapping from a date to its weekday tag.
//!
//! A date is kept as its proleptic-Gregorian calendar fields. The weekday
//! mapper counts the days from the reference day 0000-03-01 (a Wednesday;
//! counting from March keeps every leap day at the end of the counted year)
//! and reduces that count modulo the seven-day week.

use vstd::prelude::*;

use crate::weekday::RecurringOption;

verus! {

/// A calendar date, held as its year, month and day fields.
#[derive(Clone, Copy, PartialEq, Eq, Structural, Debug)]
pub struct CalendarDate {
    pub year: i32,
    pub month: u8,
    pub day: u8,
}

/// Whether year `y` is a leap year in the Gregorian calendar.
pub open spec fn spec_is_leap_year(y: int) -> bool {
    y % 4 == 0 && (y % 100 != 0 || y % 400 == 0)
}

/// The number of days in month `m` of year `y`.
pub open spec fn spec_days_in_month(y: int, m: int) -> int {
    if m == 2 {
        if spec_is_leap_year(y) {
            29
        } else {
            28
        }
    } else if m == 4 || m == 6 || m == 9 || m == 11 {
        30
    } else {
        31
    }
}

/// Whether year `y`, month `m`, day `d` name a calendar date this library
/// accepts: a real Gregorian date with a four-digit year.
pub open spec fn spec_ymd_valid(y: int, m: int, d: int) -> bool {
    1 <= y <= 9999 && 1 <= m <= 12 && 1 <= d <= spec_days_in_month(y, m)
}

/// The weekday tag for a week index, with 0 standing for Monday and 6 for
/// Sunday.
pub open spec fn spec_weekday_from_index(n: int) -> RecurringOption {
    if n == 0 {
        RecurringOption::Monday
    } else if n == 1 {
        RecurringOption::Tuesday
    } else if n == 2 {
        RecurringOption::Wednesday
    } else if n == 3 {
        RecurringOption::Thursday
    } else if n == 4 {
        RecurringOption::Friday
    } else if n == 5 {
        RecurringOption::Saturday
    } else {
        RecurringOption::Sunday
    }
}

impl CalendarDate {
    /// Whether this value names a real calendar date.
    pub open spec fn valid(self) -> bool {
        spec_ymd_valid(self.year as int, self.month as int, self.day as int)
    }

    /// How many days lie between 0000-03-01 and this date: years are counted
    /// from March, eras of 400 years span 146097 days, and within an era a
    /// year contributes 365 days plus its leap-day corrections.
    pub open spec fn spec_day_number(self) -> int {
        let y: int = if self.month <= 2 {
            self.year - 1
        } else {
            self.year as int
        };
        let era = y / 400;
        let yoe = y - era * 400;
        let mp: int = if self.month > 2 {
            self.month - 3
        } else {
            self.month + 9
        };
        let doy = (153 * mp + 2) / 5 + self.day - 1;
        let doe = yoe * 365 + yoe / 4 - yoe / 100 + doy;
        era * 146097 + doe
    }

    /// The weekday tag of this date; day 0, 0000-03-01, was a Wednesday.
    pub open spec fn spec_weekday(self) -> RecurringOption {
        spec_weekday_from_index((self.spec_day_number() + 2) % 7)
    }

    /// The date for the given fields, or `None` when they name no real date.
    pub fn from_ymd(year: i32, month: u8, day: u8) -> (r: Option<CalendarDate>)
        ensures
            r is Some <==> spec_ymd_valid(year as int, month as int, day as int),
            r matches Some(c) ==> c == (CalendarDate { year, month, day }),
    {
        if 1 <= year && year <= 9999 && 1 <= month && month <= 12 && 1 <= day && day
            <= days_in_month(year, month) {
            Some(CalendarDate { year, month, day })
        } else {
            None
        }
    }

    /// The count of days from 0000-03-01 to this date.
    pub fn day_number(&self) -> (n: u32)
        requires
            self.valid(),
        ensures
            n == self.spec_day_number(),
            n <= 3_660_000,
    {
        let y: u32 = if self.month <= 2 {
            (self.year as u32) - 1
        } else {
            self.year as u32
        };
        let era: u32 = y / 400;
        let yoe: u32 = y - era * 400;
        let mp: u32 = if self.month > 2 {
            (self.month - 3) as u32
        } else {
            (self.month + 9) as u32
        };
        let doy: u32 = (153 * mp + 2) / 5 + (self.day as u32) - 1;
        let doe: u32 = yoe * 365 + yoe / 4 - yoe / 100 + doy;
        era * 146097 + doe
    }

    /// The weekday tag of this date.
    pub fn weekday(&self) -> (w: RecurringOption)
        requires
            self.valid(),
        ensures
            w == self.spec_weekday(),
    {
        let n = self.day_number();
        let idx = (n + 2) % 7;
        if idx == 0 {
            RecurringOption::Monday
        } else if idx == 1 {
            RecurringOption::Tuesday
        } else if idx == 2 {
            RecurringOption::Wednesday
        } else if idx == 3 {
            RecurringOption::Thursday
        } else if idx == 4 {
            RecurringOption::Friday
        } else if idx == 5 {
            RecurringOption::Saturday
        } else {
            RecurringOption::Sunday
        }
    }
}

/// Whether year `y` is a leap year.
pub fn is_leap_year(y: i32) -> (r: bool)
    requires
        1 <= y <= 9999,
    ensures
        r == spec_is_leap_year(y as int),
{
    y % 4 == 0 && (y % 100 != 0 || y % 400 == 0)
}

/// The number of days in month `m` of year `y`.
pub fn days_in_month(y: i32, m: u8) -> (r: u8)
    requires
        1 <= y <= 9999,
        1 <= m <= 12,
    ensures
        r == spec_days_in_month(y as int, m as int),
{
    if m == 2 {
        if is_leap_year(y) {
            29
        } else {
            28
        }
    } else if m == 4 || m == 6 || m == 9 || m == 11 {
        30
    } else {
        31
    }
}

/// Whether byte `c` is an ASCII decimal digit.
pub open spec fn spec_is_digit(c: u8) -> bool {
    48 <= c <= 57
}

/// The value of the ASCII digit `c`.
pub open spec fn spec_digit_val(c: u8) -> int {
    c - 48
}

/// Whether `s` has the shape of an ISO calendar date, `YYYY-MM-DD`.
pub open spec fn spec_date_shape(s: Seq<u8>) -> bool {
    s.len() == 10 && spec_is_digit(s[0]) && spec_is_digit(s[1]) && spec_is_digit(s[2])
        && spec_is_digit(s[3]) && s[4] == 45u8 && spec_is_digit(s[5]) && spec_is_digit(s[6]) && s[7]
        == 45u8 && spec_is_digit(s[8]) && spec_is_digit(s[9])
}

/// The year named by the first four bytes of a date-shaped `s`.
pub open spec fn spec_parsed_year(s: Seq<u8>) -> int {
    1000 * spec_digit_val(s[0]) + 100 * spec_digit_val(s[1]) + 10 * spec_digit_val(s[2])
        + spec_digit_val(s[3])
}

/// The month named by bytes five and six of a date-shaped `s`.
pub open spec fn spec_parsed_month(s: Seq<u8>) -> int {
    10 * spec_digit_val(s[5]) + spec_digit_val(s[6])
}

/// The day named by the last two bytes of a date-shaped `s`.
pub open spec fn spec_parsed_day(s: Seq<u8>) -> int {
    10 * spec_digit_val(s[8]) + spec_digit_val(s[9])
}

/// Whether `s` is a date-shaped byte string naming a real calendar date.
pub open spec fn spec_is_parsable_date(s: Seq<u8>) -> bool {
    spec_date_shape(s) && spec_ymd_valid(
        spec_parsed_year(s),
        spec_parsed_month(s),
        spec_parsed_day(s),
    )
}

/// The date a parsable `s` names.
pub open spec fn spec_parsed_date(s: Seq<u8>) -> CalendarDate {
    CalendarDate {
        year: spec_parsed_year(s) as i32,
        month: spec_parsed_month(s) as u8,
        day: spec_parsed_day(s) as u8,
    }
}

/// Parses an ISO `YYYY-MM-DD` date. Returns the named date, or `None` when
/// the bytes do not have that shape or name no real calendar date.
pub fn parse_date(s: &[u8]) -> (r: Option<CalendarDate>)
    ensures
        r is Some <==> spec_is_parsable_date(s@),
        r matches Some(c) ==> c == spec_parsed_date(s@) && c.year == spec_parsed_year(s@)
            && c.month == spec_parsed_month(s@) && c.day == spec_parsed_day(s@) && c.valid(),
{
    if s.len() != 10 {
        return None;
    }
    let b0 = s[0];
    let b1 = s[1];
    let b2 = s[2];
    let b3 = s[3];
    let b4 = s[4];
    let b5 = s[5];
    let b6 = s[6];
    let b7 = s[7];
    let b8 = s[8];
    let b9 = s[9];
    let shape_ok = is_digit(b0) && is_digit(b1) && is_digit(b2) && is_digit(b3) && b4 == 45u8
        && is_digit(b5) && is_digit(b6) && b7 == 45u8 && is_digit(b8) && is_digit(b9);
    if !shape_ok {
        return None;
    }
    let year: u32 = 1000 * ((b0 - 48) as u32) + 100 * ((b1 - 48) as u32) + 10 * ((b2 - 48) as u32)
        + ((b3 - 48) as u32);
    let month: u8 = 10 * (b5 - 48) + (b6 - 48);
    let day: u8 = 10 * (b8 - 48) + (b9 - 48);
    CalendarDate::from_ymd(year as i32, month, day)
}

/// Whether byte `c` is an ASCII decimal digit.
fn is_digit(c: u8) -> (r: bool)
    ensures
        r == spec_is_digit(c),
{
    48 <= c && c <= 57
}

} // verus!
