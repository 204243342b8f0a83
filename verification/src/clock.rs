//! Dates as the agent writes them, formatted with `chrono`.
use vstd::prelude::*;

use chrono::NaiveDate;

use crate::text::{decimal, digit_char};

verus! {

/// A local date and hour, as read from the clock.
pub struct LocalTime {
    pub year: i32,
    pub month: u32,
    pub day: u32,
    pub hour: u32,
}

/// A leap year of the proleptic Gregorian calendar.
pub open spec fn is_leap_year(year: int) -> bool {
    year % 4 == 0 && (year % 100 != 0 || year % 400 == 0)
}

/// The days of `month` in `year`.
pub open spec fn days_in_month(year: int, month: int) -> int {
    if month == 2 {
        if is_leap_year(year) {
            29
        } else {
            28
        }
    } else if month == 4 || month == 6 || month == 9 || month == 11 {
        30
    } else {
        31
    }
}

/// The first year that `chrono` dates can hold.
pub open spec fn min_year() -> int {
    -262143
}

/// The last year that `chrono` dates can hold.
pub open spec fn max_year() -> int {
    262142
}

/// A real date and hour, in the years that `chrono` dates can hold.
pub open spec fn valid_local_time(t: LocalTime) -> bool {
    &&& min_year() <= t.year <= max_year()
    &&& 1 <= t.month <= 12
    &&& 1 <= t.day <= days_in_month(t.year as int, t.month as int)
    &&& t.hour < 24
}

/// The pattern of a date: day, month and year.
pub open spec fn date_pattern() -> Seq<char> {
    "%d-%m-%Y"@
}

/// The pattern of a time stamp: the date and the hour.
pub open spec fn stamp_pattern() -> Seq<char> {
    "%d-%m-%Y às %H horas."@
}

/// `n < 100` in two digits.
pub open spec fn pad2(n: nat) -> Seq<char> {
    seq![digit_char(n / 10), digit_char(n % 10)]
}

/// `n < 10000` in four digits.
pub open spec fn pad4(n: nat) -> Seq<char> {
    seq![digit_char(n / 1000), digit_char((n / 100) % 10), digit_char((n / 10) % 10), digit_char(n % 10)]
}

/// The year as `%Y` writes it: four zero-padded digits for the years 0 to
/// 9999; otherwise a sign, and the digits padded to four.
pub open spec fn year_text(year: int) -> Seq<char> {
    if 0 <= year <= 9999 {
        pad4(year as nat)
    } else if year < 0 {
        seq!['-'] + if -year < 10000 {
            pad4((-year) as nat)
        } else {
            decimal((-year) as nat)
        }
    } else {
        seq!['+'] + decimal(year as nat)
    }
}

/// The date of `t` as `%d-%m-%Y` writes it: `DD-MM-YYYY`.
pub open spec fn date_text(t: LocalTime) -> Seq<char> {
    pad2(t.day as nat) + "-"@ + pad2(t.month as nat) + "-"@ + year_text(t.year as int)
}

/// The time stamp of `t` as `%d-%m-%Y às %H horas.` writes it.
pub open spec fn stamp_text(t: LocalTime) -> Seq<char> {
    date_text(t) + " às "@ + pad2(t.hour as nat) + " horas."@
}

/// `t` written with `pattern` by `chrono` (`NaiveDate::from_ymd_opt`,
/// `NaiveDate::and_hms_opt`, `NaiveDateTime::format`). This trusts what the
/// `chrono` source gives: a real date in the years it can hold is accepted,
/// `%d`, `%m`, `%H` are two zero-padded digits, and `%Y` is four zero-padded
/// digits in the years 0 to 9999 and otherwise a sign and at least four digits.
#[verifier::external_body]
fn format_time(t: &LocalTime, pattern: &str) -> (s: String)
    requires
        valid_local_time(*t),
        pattern@ == date_pattern() || pattern@ == stamp_pattern(),
    ensures
        pattern@ == date_pattern() ==> s@ == date_text(*t),
        pattern@ == stamp_pattern() ==> s@ == stamp_text(*t),
{
    match NaiveDate::from_ymd_opt(t.year, t.month, t.day) {
        Some(date) => match date.and_hms_opt(t.hour, 0, 0) {
            Some(date_time) => date_time.format(pattern).to_string(),
            None => String::new(),
        },
        None => String::new(),
    }
}

impl LocalTime {
    /// The local time with these fields, if they make a real date and hour in
    /// the years that `chrono` dates can hold.
    pub fn new(year: i32, month: u32, day: u32, hour: u32) -> (t: Option<LocalTime>)
        ensures
            t matches Some(lt) ==> lt == (LocalTime { year, month, day, hour }),
            t is Some <==> valid_local_time(LocalTime { year, month, day, hour }),
    {
        if year < -262143 || year > 262142 || month < 1 || month > 12 || day < 1 || hour >= 24 {
            return None;
        }
        let ay: u32 = if year < 0 {
            (-year) as u32
        } else {
            year as u32
        };
        assert(is_leap_year(year as int) == ((ay % 4 == 0) && (ay % 100 != 0 || ay % 400 == 0)))
            by (nonlinear_arith)
            requires
                ay == (if year < 0 {
                    -year
                } else {
                    year as int
                }),
        ;
        let leap = ay % 4 == 0 && (ay % 100 != 0 || ay % 400 == 0);
        let days: u32 = if month == 2 {
            if leap {
                29
            } else {
                28
            }
        } else if month == 4 || month == 6 || month == 9 || month == 11 {
            30
        } else {
            31
        };
        if day > days {
            None
        } else {
            Some(LocalTime { year, month, day, hour })
        }
    }
}

/// The time stamp of a report: `DD-MM-YYYY às HH horas.`
pub fn time_now(now: &LocalTime) -> (s: String)
    requires
        valid_local_time(*now),
    ensures
        s@ == stamp_text(*now),
{
    format_time(now, "%d-%m-%Y às %H horas.")
}

/// The date of a report: `DD-MM-YYYY`.
pub fn current_date(now: &LocalTime) -> (s: String)
    requires
        valid_local_time(*now),
    ensures
        s@ == date_text(*now),
{
    format_time(now, "%d-%m-%Y")
}

} // verus!
