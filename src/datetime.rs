//! Calendar dates and wall-clock times as plain values, and their text forms.
use chrono::{Datelike, Timelike};
use vstd::prelude::*;

verus! {

/// Pattern of a date and time as the user writes it: `10.01.2021 14:05`.
pub const INPUT_DATETIME_PATTERN: &'static str = "%d.%m.%Y %H:%M";

/// Pattern of a date as the user writes it: `10.01.2021`.
pub const INPUT_DATE_PATTERN: &'static str = "%d.%m.%Y";

/// Pattern of the clock part shown in a listing: `14:05`.
pub const CLOCK_PATTERN: &'static str = "%H:%M";

/// Pattern of a time as the table stores it: `2021-01-10 14:05:00.5`.
pub const STORED_DATETIME_PATTERN: &'static str = "%Y-%m-%d %H:%M:%S%.f";

/// Pattern of a date as the table's `DATE()` function gives it: `2021-01-10`.
pub const STORED_DATE_PATTERN: &'static str = "%Y-%m-%d";

/// Smallest and largest year that a date can hold.
pub const MIN_YEAR: i32 = -262143;
pub const MAX_YEAR: i32 = 262142;

/// A day of the proleptic Gregorian calendar.
#[derive(Clone, Copy, Debug, PartialEq, Eq, Structural)]
pub struct LogDate {
    pub year: i32,
    pub month: u32,
    pub day: u32,
}

/// A date with a time of day, without a time zone.
#[derive(Clone, Copy, Debug, PartialEq, Eq, Structural)]
pub struct LogDateTime {
    pub date: LogDate,
    pub hour: u32,
    pub minute: u32,
    pub second: u32,
    /// Fraction of the second; from one second up it marks a leap second.
    pub nanosecond: u32,
}

pub open spec fn is_leap_year(y: int) -> bool {
    (y % 4 == 0 && y % 100 != 0) || y % 400 == 0
}

pub open spec fn days_in_month(y: int, m: int) -> int {
    if m == 2 {
        if is_leap_year(y) { 29 } else { 28 }
    } else if m == 4 || m == 6 || m == 9 || m == 11 {
        30
    } else {
        31
    }
}

impl LogDate {
    /// The date exists in the calendar and lies in the representable range.
    pub open spec fn wf(self) -> bool {
        &&& MIN_YEAR <= self.year <= MAX_YEAR
        &&& 1 <= self.month <= 12
        &&& 1 <= self.day <= days_in_month(self.year as int, self.month as int)
    }

    /// Day order: earlier dates are smaller.
    pub open spec fn before(self, other: LogDate) -> bool {
        ||| self.year < other.year
        ||| (self.year == other.year && self.month < other.month)
        ||| (self.year == other.year && self.month == other.month && self.day < other.day)
    }
}

impl LogDateTime {
    pub open spec fn wf(self) -> bool {
        &&& self.date.wf()
        &&& self.hour < 24
        &&& self.minute < 60
        &&& self.second < 60
        &&& self.nanosecond < 2_000_000_000
        &&& (self.nanosecond >= 1_000_000_000 ==> self.second == 59)
    }

    /// The value as a tuple of integers, most significant first.
    pub open spec fn fields(self) -> (int, int, int, int, int, int, int) {
        (
            self.date.year as int,
            self.date.month as int,
            self.date.day as int,
            self.hour as int,
            self.minute as int,
            self.second as int,
            self.nanosecond as int,
        )
    }

    /// Position within the day, in nanoseconds from midnight (leap seconds included).
    pub open spec fn day_offset(self) -> int {
        ((self.hour as int * 60 + self.minute as int) * 60 + self.second as int) * 2_000_000_000
            + self.nanosecond as int
    }

    /// Time order: earlier instants are smaller.
    pub open spec fn before(self, other: LogDateTime) -> bool {
        ||| self.date.before(other.date)
        ||| (self.date == other.date && self.day_offset() < other.day_offset())
    }
}

pub open spec fn digit_char(n: int) -> char {
    if n == 0 { '0' }
    else if n == 1 { '1' }
    else if n == 2 { '2' }
    else if n == 3 { '3' }
    else if n == 4 { '4' }
    else if n == 5 { '5' }
    else if n == 6 { '6' }
    else if n == 7 { '7' }
    else if n == 8 { '8' }
    else { '9' }
}

/// `n` in two decimal digits, zero-padded.
pub open spec fn two_digits(n: int) -> Seq<char> {
    seq![digit_char(n / 10), digit_char(n % 10)]
}

/// `n` in four decimal digits, zero-padded.
pub open spec fn four_digits(n: int) -> Seq<char> {
    seq![digit_char(n / 1000), digit_char((n / 100) % 10), digit_char((n / 10) % 10), digit_char(n % 10)]
}

/// `DD.MM.YYYY`
pub open spec fn date_text(d: LogDate) -> Seq<char> {
    two_digits(d.day as int) + seq!['.'] + two_digits(d.month as int) + seq!['.'] + four_digits(d.year as int)
}

/// `YYYY-MM-DD`
pub open spec fn stored_date_text(d: LogDate) -> Seq<char> {
    four_digits(d.year as int) + seq!['-'] + two_digits(d.month as int) + seq!['-'] + two_digits(d.day as int)
}

/// `HH:MM`: the time of day truncated to the minute.
pub open spec fn clock_text(t: LogDateTime) -> Seq<char> {
    two_digits(t.hour as int) + seq![':'] + two_digits(t.minute as int)
}

/// `DD.MM.YYYY HH:MM`
pub open spec fn datetime_text(t: LogDateTime) -> Seq<char> {
    date_text(t.date) + seq![' '] + clock_text(t)
}

/// `n` in `k` decimal digits, zero-padded.
pub open spec fn padded_digits(n: int, k: nat) -> Seq<char>
    decreases k,
{
    if k == 0 {
        seq![]
    } else {
        padded_digits(n / 10, (k - 1) as nat).push(digit_char(n % 10))
    }
}

/// The fraction of a second as `%.f` prints it: nothing for none, else a point and three,
/// six or nine digits.
pub open spec fn fraction_text(nano: int) -> Seq<char> {
    if nano == 0 {
        seq![]
    } else if nano % 1_000_000 == 0 {
        seq!['.'] + padded_digits(nano / 1_000_000, 3)
    } else if nano % 1_000 == 0 {
        seq!['.'] + padded_digits(nano / 1_000, 6)
    } else {
        seq!['.'] + padded_digits(nano, 9)
    }
}

/// `YYYY-MM-DD HH:MM:SS` and the fraction of the second: the form the table stores.
pub open spec fn stored_datetime_text(t: LogDateTime) -> Seq<char> {
    stored_date_text(t.date) + seq![' '] + two_digits(t.hour as int) + seq![':'] + two_digits(
        t.minute as int,
    ) + seq![':'] + two_digits(t.second as int) + fraction_text(t.nanosecond as int)
}

/// A valid time whose stored text is in the form above: a four-digit year and no leap second.
pub open spec fn storable(t: LogDateTime) -> bool {
    t.wf() && four_digit_year(t.date.year as int) && t.nanosecond < 1_000_000_000
}

/// A year that the patterns above print in exactly four digits.
pub open spec fn four_digit_year(y: int) -> bool {
    0 <= y <= 9999
}

/// What `parse_from_str` of chrono's `NaiveDateTime` makes of a text under a pattern.
pub uninterp spec fn parsed_datetime(s: Seq<char>, pattern: Seq<char>) -> Option<(int, int, int, int, int, int, int)>;

/// What `parse_from_str` of chrono's `NaiveDate` makes of a text under a pattern.
pub uninterp spec fn parsed_date(s: Seq<char>, pattern: Seq<char>) -> Option<(int, int, int)>;

/// Relies on chrono's `NaiveDateTime::parse_from_str`: it fails or gives a valid date and time,
/// and what it gives depends on the text and the pattern alone; under the stored pattern it
/// reads back the time that `format` printed in that pattern (`%.f` takes the point and up to
/// nine digits, or nothing).
#[verifier::external_body]
pub(crate) fn parse_datetime(s: &str, pattern: &str) -> (r: Option<LogDateTime>)
    ensures
        match r {
            Some(t) => t.wf() && parsed_datetime(s@, pattern@) == Some(t.fields()),
            None => parsed_datetime(s@, pattern@).is_none(),
        },
        pattern@ == STORED_DATETIME_PATTERN@ ==> forall|t: LogDateTime|
            storable(t) && s@ == #[trigger] stored_datetime_text(t) ==> r == Some(t),
{
    chrono::NaiveDateTime::parse_from_str(s, pattern).ok().map(|n| LogDateTime {
        date: LogDate { year: n.year(), month: n.month(), day: n.day() },
        hour: n.hour(),
        minute: n.minute(),
        second: n.second(),
        nanosecond: n.nanosecond(),
    })
}

/// Relies on chrono's `NaiveDate::parse_from_str`: it fails or gives a valid date, and what
/// it gives depends on the text and the pattern alone.
#[verifier::external_body]
pub(crate) fn parse_date(s: &str, pattern: &str) -> (r: Option<LogDate>)
    ensures
        match r {
            Some(d) => d.wf() && parsed_date(s@, pattern@) == Some(
                (d.year as int, d.month as int, d.day as int),
            ),
            None => parsed_date(s@, pattern@).is_none(),
        },
{
    chrono::NaiveDate::parse_from_str(s, pattern).ok().map(|n| LogDate {
        year: n.year(),
        month: n.month(),
        day: n.day(),
    })
}

/// Relies on chrono's `NaiveDateTime::format`: `%d`, `%m`, `%H`, `%M` and `%S` print two
/// digits, `%Y` four digits for a year from 0 to 9999, `%.f` the fraction of the second as
/// `fraction_text` says, other characters stand for themselves.
#[verifier::external_body]
pub(crate) fn format_datetime(t: &LogDateTime, pattern: &str) -> (r: String)
    requires
        t.wf(),
        pattern@ == INPUT_DATETIME_PATTERN@ || pattern@ == CLOCK_PATTERN@
            || pattern@ == STORED_DATETIME_PATTERN@,
    ensures
        pattern@ == CLOCK_PATTERN@ ==> r@ == clock_text(*t),
        pattern@ == INPUT_DATETIME_PATTERN@ && four_digit_year(t.date.year as int) ==> r@
            == datetime_text(*t),
        pattern@ == STORED_DATETIME_PATTERN@ && storable(*t) ==> r@ == stored_datetime_text(*t),
{
    chrono::NaiveDate::from_ymd_opt(t.date.year, t.date.month, t.date.day)
        .and_then(|d| d.and_hms_nano_opt(t.hour, t.minute, t.second, t.nanosecond))
        .unwrap()
        .format(pattern)
        .to_string()
}

/// Relies on chrono's `NaiveDate::format`: `%d` and `%m` print two digits, `%Y` four digits
/// for a year from 0 to 9999, other characters stand for themselves.
#[verifier::external_body]
pub(crate) fn format_date(d: &LogDate, pattern: &str) -> (r: String)
    requires
        d.wf(),
        pattern@ == INPUT_DATE_PATTERN@ || pattern@ == STORED_DATE_PATTERN@,
    ensures
        four_digit_year(d.year as int) ==> {
            &&& pattern@ == INPUT_DATE_PATTERN@ ==> r@ == date_text(*d)
            &&& pattern@ == STORED_DATE_PATTERN@ ==> r@ == stored_date_text(*d)
        },
{
    chrono::NaiveDate::from_ymd_opt(d.year, d.month, d.day).unwrap().format(pattern).to_string()
}

/// Relies on chrono's `Local::now`: the current local date and time, always a valid one.
#[verifier::external_body]
pub(crate) fn now_local() -> (r: LogDateTime)
    ensures
        r.wf(),
{
    let n = chrono::Local::now().naive_local();
    LogDateTime {
        date: LogDate { year: n.year(), month: n.month(), day: n.day() },
        hour: n.hour(),
        minute: n.minute(),
        second: n.second(),
        nanosecond: n.nanosecond(),
    }
}

} // verus!
