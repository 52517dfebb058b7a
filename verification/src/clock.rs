//! Times of day and calendar dates as plain values, and what chrono computes on them:
//! the weekday of a date, and the "HH:MM" / "YYYY-MM-DD" text forms.
use vstd::prelude::*;
use chrono::{Datelike, NaiveDate, NaiveTime, Timelike};
use crate::weekday::Weekday;

verus! {

/// A time of day to the minute (seconds are zero).
#[derive(Clone, Copy, PartialEq, Eq, Structural, Debug)]
pub struct TimeOfDay {
    pub hour: u32,
    pub minute: u32,
}

/// A date of the proleptic Gregorian calendar.
#[derive(Clone, Copy, PartialEq, Eq, Structural, Debug)]
pub struct CalendarDate {
    pub year: i32,
    pub month: u32,
    pub day: u32,
}

/// The local wall clock as the reminder check reads it: today's date, the whole
/// seconds since midnight, and the nanoseconds within the second (which exceed
/// 999_999_999 only during a leap second).
#[derive(Clone, Copy, PartialEq, Eq, Structural, Debug)]
pub struct ClockReading {
    pub date: CalendarDate,
    pub secs_from_midnight: u32,
    pub nanos: u32,
}

impl TimeOfDay {
    /// The hour and minute name a time of day.
    pub open spec fn valid(self) -> bool {
        self.hour < 24 && self.minute < 60
    }

    /// Seconds from midnight to this time.
    pub open spec fn seconds(self) -> int {
        self.hour * 3600 + self.minute * 60
    }
}

/// Midnight.
pub fn midnight() -> (t: TimeOfDay)
    ensures
        t == (TimeOfDay { hour: 0, minute: 0 }),
{
    TimeOfDay { hour: 0, minute: 0 }
}

/// A parsed time, or midnight when the text did not parse (what a reminder with
/// an unreadable time falls back to).
pub fn time_or_midnight(parsed: Option<TimeOfDay>) -> (t: TimeOfDay)
    ensures
        t == match parsed {
            Some(p) => p,
            None => TimeOfDay { hour: 0, minute: 0 },
        },
{
    match parsed {
        Some(p) => p,
        None => midnight(),
    }
}

pub open spec fn is_leap_year(y: int) -> bool {
    (y % 4 == 0 && y % 100 != 0) || y % 400 == 0
}

pub open spec fn days_in_month(y: int, m: int) -> int {
    if m == 2 {
        if is_leap_year(y) {
            29
        } else {
            28
        }
    } else if m == 4 || m == 6 || m == 9 || m == 11 {
        30
    } else {
        31
    }
}

/// The years that chrono's `NaiveDate` can hold.
pub open spec fn min_year() -> int {
    -262143
}

pub open spec fn max_year() -> int {
    262142
}

/// The date exists in the proleptic Gregorian calendar and chrono can hold it.
pub open spec fn valid_date(d: CalendarDate) -> bool {
    &&& min_year() <= d.year <= max_year()
    &&& 1 <= d.month <= 12
    &&& 1 <= d.day <= days_in_month(d.year as int, d.month as int)
}

/// Days from 1970-01-01 to the date (proleptic Gregorian calendar).
pub open spec fn days_from_epoch(d: CalendarDate) -> int {
    let y = d.year as int;
    let m = d.month as int;
    let yy = if m <= 2 {
        y - 1
    } else {
        y
    };
    let era = yy / 400;
    let yoe = yy - era * 400;
    let mp = if m > 2 {
        m - 3
    } else {
        m + 9
    };
    let doy = (153 * mp + 2) / 5 + d.day - 1;
    let doe = yoe * 365 + yoe / 4 - yoe / 100 + doy;
    era * 146097 + doe - 719468
}

/// The weekday of a date, counted from Sunday (1970-01-01 was a Thursday).
pub open spec fn weekday_number(d: CalendarDate) -> int {
    (days_from_epoch(d) + 4) % 7
}

/// The weekday of a valid date; none for a date that does not exist.
pub open spec fn weekday_of_date(d: CalendarDate) -> Option<Weekday> {
    if valid_date(d) {
        Some(
            if weekday_number(d) == 0 {
                Weekday::Sun
            } else if weekday_number(d) == 1 {
                Weekday::Mon
            } else if weekday_number(d) == 2 {
                Weekday::Tue
            } else if weekday_number(d) == 3 {
                Weekday::Wed
            } else if weekday_number(d) == 4 {
                Weekday::Thu
            } else if weekday_number(d) == 5 {
                Weekday::Fri
            } else {
                Weekday::Sat
            },
        )
    } else {
        None
    }
}

pub open spec fn digit_char(k: int) -> char {
    if k == 0 {
        '0'
    } else if k == 1 {
        '1'
    } else if k == 2 {
        '2'
    } else if k == 3 {
        '3'
    } else if k == 4 {
        '4'
    } else if k == 5 {
        '5'
    } else if k == 6 {
        '6'
    } else if k == 7 {
        '7'
    } else if k == 8 {
        '8'
    } else {
        '9'
    }
}

/// A number below 100 as two decimal digits, zero-padded.
pub open spec fn two_digits(n: int) -> Seq<char> {
    seq![digit_char(n / 10), digit_char(n % 10)]
}

/// A number below 10000 as four decimal digits, zero-padded.
pub open spec fn four_digits(n: int) -> Seq<char> {
    seq![digit_char(n / 1000), digit_char((n / 100) % 10), digit_char((n / 10) % 10), digit_char(n % 10)]
}

/// "HH:MM".
pub open spec fn time_text(t: TimeOfDay) -> Seq<char> {
    two_digits(t.hour as int) + seq![':'] + two_digits(t.minute as int)
}

/// "YYYY-MM-DD" for a year from 0 to 9999.
pub open spec fn date_text(d: CalendarDate) -> Seq<char> {
    four_digits(d.year as int) + seq!['-'] + two_digits(d.month as int) + seq!['-'] + two_digits(
        d.day as int,
    )
}

/// What chrono's `NaiveTime::parse_from_str(text, "%H:%M")` gives, as (hour, minute).
pub uninterp spec fn chrono_parse_hm(text: Seq<char>) -> Option<(u32, u32)>;

/// What chrono's `NaiveDate::parse_from_str(text, "%Y-%m-%d")` gives, as (year, month, day).
pub uninterp spec fn chrono_parse_ymd(text: Seq<char>) -> Option<(i32, u32, u32)>;

/// What chrono's `NaiveDate::format("%Y-%m-%d")` writes for a valid date.
pub uninterp spec fn chrono_format_ymd(year: i32, month: u32, day: u32) -> Seq<char>;

/// The weekday of a date, from chrono's `Datelike::weekday` on the `NaiveDate` that
/// `NaiveDate::from_ymd_opt` makes of it; none where `from_ymd_opt` refuses the date.
/// Claimed: `from_ymd_opt` accepts exactly the valid dates of chrono's year range
/// (its documentation and source), and the weekday is that of the proleptic
/// Gregorian calendar, stated here by day count from 1970-01-01, a Thursday.
#[verifier::external_body]
pub(crate) fn weekday_of(d: CalendarDate) -> (r: Option<Weekday>)
    ensures
        r == weekday_of_date(d),
{
    match NaiveDate::from_ymd_opt(d.year, d.month, d.day) {
        Some(date) => Some(
            match date.weekday() {
                chrono::Weekday::Mon => Weekday::Mon,
                chrono::Weekday::Tue => Weekday::Tue,
                chrono::Weekday::Wed => Weekday::Wed,
                chrono::Weekday::Thu => Weekday::Thu,
                chrono::Weekday::Fri => Weekday::Fri,
                chrono::Weekday::Sat => Weekday::Sat,
                chrono::Weekday::Sun => Weekday::Sun,
            },
        ),
        None => None,
    }
}

/// Reads "HH:MM" with chrono's `NaiveTime::parse_from_str(text, "%H:%M")`.
/// Claimed: the result is named by `chrono_parse_hm`; a parsed time is a valid
/// time of day; and text of two zero-padded digits, ':' and two zero-padded
/// digits of a valid time reads back as that time (chrono documents `%H` and `%M`
/// as zero-padded two-digit fields and parsing as the inverse of formatting).
/// How chrono reads other text (single digits, extra spaces) is left unsaid.
#[verifier::external_body]
pub(crate) fn parse_time_hm(text: &str) -> (r: Option<TimeOfDay>)
    ensures
        r == match chrono_parse_hm(text@) {
            Some((h, m)) => Some(TimeOfDay { hour: h, minute: m }),
            None => None,
        },
        r matches Some(t) ==> t.valid(),
        forall|t: TimeOfDay| #![trigger time_text(t)]
            t.valid() && text@ == time_text(t) ==> r == Some(t),
{
    match NaiveTime::parse_from_str(text, "%H:%M") {
        Ok(t) => Some(TimeOfDay { hour: t.hour(), minute: t.minute() }),
        Err(_) => None,
    }
}

/// Writes a time of day with chrono's `NaiveTime::format("%H:%M")` (the time made
/// by `NaiveTime::from_hms_opt(hour, minute, 0)`). Claimed: two zero-padded digits
/// of the hour, ':', two zero-padded digits of the minute, as chrono documents.
#[verifier::external_body]
pub(crate) fn format_time_hm(t: TimeOfDay) -> (r: String)
    requires
        t.valid(),
    ensures
        r@ == time_text(t),
{
    match NaiveTime::from_hms_opt(t.hour, t.minute, 0) {
        Some(time) => time.format("%H:%M").to_string(),
        None => String::new(),
    }
}

/// Reads "YYYY-MM-DD" with chrono's `NaiveDate::parse_from_str(text, "%Y-%m-%d")`.
/// Claimed: the result is named by `chrono_parse_ymd`; a parsed date is valid; and
/// for a valid date of a year from 0 to 9999 its zero-padded text reads back as
/// that date (chrono's documented example "2015-09-05" and `%Y`, `%m`, `%d`).
/// How chrono reads other text is left unsaid.
#[verifier::external_body]
pub(crate) fn parse_date_ymd(text: &str) -> (r: Option<CalendarDate>)
    ensures
        r == match chrono_parse_ymd(text@) {
            Some((y, m, d)) => Some(CalendarDate { year: y, month: m, day: d }),
            None => None,
        },
        r matches Some(d) ==> valid_date(d),
        forall|d: CalendarDate| #![trigger date_text(d)]
            valid_date(d) && 0 <= d.year <= 9999 && text@ == date_text(d) ==> r == Some(d),
{
    match NaiveDate::parse_from_str(text, "%Y-%m-%d") {
        Ok(d) => Some(CalendarDate { year: d.year(), month: d.month(), day: d.day() }),
        Err(_) => None,
    }
}

/// Writes a date with chrono's `NaiveDate::format("%Y-%m-%d")` (the date made by
/// `NaiveDate::from_ymd_opt`). Claimed: the text is named by `chrono_format_ymd`,
/// and for a year from 0 to 9999 it is the zero-padded "YYYY-MM-DD" that chrono
/// documents; for other years (a sign and more digits) it is left unsaid.
#[verifier::external_body]
pub(crate) fn format_date_ymd(d: CalendarDate) -> (r: String)
    requires
        valid_date(d),
    ensures
        r@ == chrono_format_ymd(d.year, d.month, d.day),
        0 <= d.year <= 9999 ==> r@ == date_text(d),
{
    match NaiveDate::from_ymd_opt(d.year, d.month, d.day) {
        Some(date) => date.format("%Y-%m-%d").to_string(),
        None => String::new(),
    }
}

} // verus!
