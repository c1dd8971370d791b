//! Calendar arithmetic on `Date` and `Time`, with chrono doing the work.

use chrono::{Datelike, Timelike};
use vstd::prelude::*;

use crate::model::{Date, Time};
use crate::numbers::{digits_value, is_digit};
use crate::text::trim_start;

verus! {

/// The first year that chrono's `NaiveDate` holds.
pub const MIN_YEAR: i32 = -262143;

/// The last year that chrono's `NaiveDate` holds.
pub const MAX_YEAR: i32 = 262142;

pub open spec fn is_leap(y: int) -> bool {
    y % 4 == 0 && (y % 100 != 0 || y % 400 == 0)
}

pub open spec fn month_days(y: int, m: int) -> int {
    if m == 2 {
        if is_leap(y) { 29 } else { 28 }
    } else if m == 4 || m == 6 || m == 9 || m == 11 {
        30
    } else {
        31
    }
}

/// The triple names a day that chrono's `NaiveDate` can hold.
pub open spec fn valid_ymd(y: int, m: int, d: int) -> bool {
    MIN_YEAR <= y <= MAX_YEAR && 1 <= m <= 12 && 1 <= d <= month_days(y, m)
}

impl Date {
    pub open spec fn wf(self) -> bool {
        valid_ymd(self.year as int, self.month as int, self.day as int)
    }
}

/// Days from 1970-01-01 to the given day (negative before it).
pub open spec fn days_from_civil(y: int, m: int, d: int) -> int {
    let y1 = if m <= 2 { y - 1 } else { y };
    let era = y1 / 400;
    let yoe = y1 - era * 400;
    let mp = if m > 2 { m - 3 } else { m + 9 };
    let doy = (153 * mp + 2) / 5 + d - 1;
    let doe = yoe * 365 + yoe / 4 - yoe / 100 + doy;
    era * 146097 + doe - 719468
}

/// The day that lies `z` days after 1970-01-01, as (year, month, day).
pub open spec fn civil_from_days(z: int) -> (int, int, int) {
    let z1 = z + 719468;
    let era = z1 / 146097;
    let doe = z1 - era * 146097;
    let yoe = (doe - doe / 1460 + doe / 36524 - doe / 146096) / 365;
    let y = yoe + era * 400;
    let doy = doe - (365 * yoe + yoe / 4 - yoe / 100);
    let mp = (5 * doy + 2) / 153;
    let d = doy - (153 * mp + 2) / 5 + 1;
    let m = if mp < 10 { mp + 3 } else { mp - 9 };
    (if m <= 2 { y + 1 } else { y }, m, d)
}

/// The day `n` days after `d`, if chrono's range still holds it.
pub open spec fn date_plus(d: Date, n: int) -> Option<Date> {
    let c = civil_from_days(days_from_civil(d.year as int, d.month as int, d.day as int) + n);
    if MIN_YEAR <= c.0 <= MAX_YEAR {
        Some(Date { year: c.0 as i32, month: c.1 as u32, day: c.2 as u32 })
    } else {
        None
    }
}

/// How many ASCII digits, at most two, stand at the start of `s`.
pub open spec fn lead_digits(s: Seq<char>) -> int {
    if s.len() > 0 && is_digit(s[0]) {
        if s.len() > 1 && is_digit(s[1]) {
            2
        } else {
            1
        }
    } else {
        0
    }
}

/// What chrono reads from `s` with the pattern `%H:%M`: after optional white
/// space, one or two digits for the hour, a colon, optional white space and
/// one or two digits for the minute, with nothing after them; the hour at
/// most 23 and the minute at most 59.
pub open spec fn clock_reading(s: Seq<char>) -> Option<Time> {
    let a = trim_start(s);
    let n = lead_digits(a);
    let rest = a.subrange(n, a.len() as int);
    if n == 0 || rest.len() == 0 || rest[0] != ':' {
        None
    } else {
        let b = trim_start(rest.drop_first());
        let k = lead_digits(b);
        let h = digits_value(a.subrange(0, n));
        let m = digits_value(b.subrange(0, k));
        if k == 0 || b.len() != k || h > 23 || m > 59 {
            None
        } else {
            Some(Time { hour: h as u32, minute: m as u32 })
        }
    }
}

/// Relies on chrono's `NaiveDate::from_ymd_opt`: a date exactly when the
/// triple names a day within chrono's range of years.
#[verifier::external_body]
pub fn date_from_ymd(year: i32, month: u32, day: u32) -> (r: Option<Date>)
    ensures
        r == (if valid_ymd(year as int, month as int, day as int) {
            Some(Date { year, month, day })
        } else {
            None
        }),
{
    chrono::NaiveDate::from_ymd_opt(year, month, day).map(
        |d| Date { year: d.year(), month: d.month(), day: d.day() },
    )
}

/// Relies on chrono's `NaiveDate::checked_add_days`: the date `n` days later,
/// or none once it passes chrono's last date; what it gives is a date that
/// chrono holds.
#[verifier::external_body]
pub fn add_days(d: Date, n: u64) -> (r: Option<Date>)
    requires
        d.wf(),
    ensures
        r == date_plus(d, n as int),
        r is Some ==> r.unwrap().wf(),
{
    let start = chrono::NaiveDate::from_ymd_opt(d.year, d.month, d.day)?;
    start.checked_add_days(chrono::Days::new(n)).map(
        |x| Date { year: x.year(), month: x.month(), day: x.day() },
    )
}

/// Relies on chrono's `NaiveTime::parse_from_str` with the pattern `%H:%M`,
/// which reads as `clock_reading` states.
#[verifier::external_body]
pub fn parse_clock(s: &str) -> (r: Option<Time>)
    ensures
        r == clock_reading(s@),
{
    chrono::NaiveTime::parse_from_str(s, "%H:%M").ok().map(
        |t| Time { hour: t.hour(), minute: t.minute() },
    )
}

/// `a` is no later than `b`.
pub open spec fn date_le(a: Date, b: Date) -> bool {
    a.year < b.year || (a.year == b.year && (a.month < b.month || (a.month == b.month && a.day
        <= b.day)))
}

pub fn date_not_after(a: Date, b: Date) -> (r: bool)
    ensures
        r == date_le(a, b),
{
    a.year < b.year || (a.year == b.year && (a.month < b.month || (a.month == b.month && a.day
        <= b.day)))
}

/// The first days of the weeks from a start date up to an end date, a week
/// apart.
pub struct WeekRange {
    pub next: Option<Date>,
    pub end: Date,
}

impl WeekRange {
    pub open spec fn wf(self) -> bool {
        self.next is Some ==> self.next.unwrap().wf()
    }

    /// The weeks from `start` up to `end`.
    pub fn new(start: Date, end: Date) -> (r: WeekRange)
        requires
            start.wf(),
        ensures
            r.wf(),
            r.next == Some(start),
            r.end == end,
    {
        WeekRange { next: Some(start), end }
    }

    /// The next first day, if it is not past the end; the one after it lies
    /// seven days later.
    pub fn next(&mut self) -> (r: Option<Date>)
        requires
            old(self).wf(),
        ensures
            final(self).wf(),
            final(self).end == old(self).end,
            match old(self).next {
                Some(d) => if date_le(d, old(self).end) {
                    r == Some(d) && final(self).next == date_plus(d, 7)
                } else {
                    r is None && final(self).next == old(self).next
                },
                None => r is None && final(self).next is None,
            },
    {
        match self.next {
            None => None,
            Some(d) => if date_not_after(d, self.end) {
                self.next = add_days(d, 7);
                Some(d)
            } else {
                None
            },
        }
    }
}

} // verus!
