//! Calendar days and times of day, as plain numbers.
//!
//! A [`Date`] is a day number of the proleptic Gregorian calendar, so that
//! moving a date by some days is integer arithmetic. Reading and writing
//! dates as text, and the calendar itself, are `chrono`'s.

use chrono::{Datelike, Timelike};
use std::fmt::Write;
use vstd::prelude::*;

verus! {

/// A calendar day: the number of days since 31 December of the year 1 BCE,
/// so that 1 January of the year 1 is day 1.
#[derive(Clone, Copy, Debug, PartialEq, Eq, Hash, Structural)]
pub struct Date {
    pub days: i32,
}

/// A day and a time of day without a time zone: seconds since midnight and
/// the nanoseconds within that second (a leap second counts beyond 999,999,999).
#[derive(Clone, Copy, Debug, PartialEq, Eq, Hash, Structural)]
pub struct DateTime {
    pub date: Date,
    pub seconds: u32,
    pub nanos: u32,
}

/// The day number of the day `day` of month `month` in year `year`, as
/// `chrono::NaiveDate::from_ymd_opt` accepts it; `None` where there is no such day.
pub uninterp spec fn civil_day_number(year: i32, month: u32, day: u32) -> Option<i32>;

/// The day number that `chrono::NaiveDate::parse_from_str` reads from `text`
/// under the format `format`; `None` where it reports an error.
pub uninterp spec fn parsed_day_number(text: Seq<char>, format: Seq<char>) -> Option<i32>;

/// What `chrono::NaiveDate::format` writes for the day `days` under `format`;
/// `None` where the day is outside `chrono`'s calendar or the format is not one.
pub uninterp spec fn formatted_day_number(days: i32, format: Seq<char>) -> Option<Seq<char>>;

/// The day number, second of the day and nanosecond that
/// `chrono::NaiveDateTime::parse_from_str` reads from `text` under `format`.
pub uninterp spec fn parsed_date_time(text: Seq<char>, format: Seq<char>) -> Option<
    (i32, u32, u32),
>;

/// What `chrono::NaiveDateTime::format` writes for the given day, second of
/// the day and nanosecond under `format`; `None` where `chrono` has no such
/// date or time, or the format is not one.
pub uninterp spec fn formatted_date_time(
    days: i32,
    seconds: u32,
    nanos: u32,
    format: Seq<char>,
) -> Option<Seq<char>>;

/// Whether `text` is the string that `named` stands for, if any.
pub open spec fn is_text_of(text: Option<String>, named: Option<Seq<char>>) -> bool {
    match text {
        Some(s) => named == Some(s@),
        None => named is None,
    }
}

/// Calls `chrono::NaiveDate::from_ymd_opt` and hands back the day number of
/// the date it made. Trusted: that the answer depends on the three numbers alone.
#[verifier::external_body]
fn chrono_from_ymd(year: i32, month: u32, day: u32) -> (r: Option<i32>)
    ensures
        r == civil_day_number(year, month, day),
{
    match chrono::NaiveDate::from_ymd_opt(year, month, day) {
        Some(date) => Some(date.num_days_from_ce()),
        None => None,
    }
}

/// Calls `chrono::NaiveDate::parse_from_str` and hands back the day number of
/// the date it read. Trusted: that the answer depends on the two strings alone.
#[verifier::external_body]
fn chrono_parse_date(text: &str, format: &str) -> (r: Option<i32>)
    ensures
        r == parsed_day_number(text@, format@),
{
    match chrono::NaiveDate::parse_from_str(text, format) {
        Ok(date) => Some(date.num_days_from_ce()),
        Err(_) => None,
    }
}

/// Writes the day `days` with `chrono::NaiveDate::format`. Trusted: that the
/// text depends on the day number and the format alone.
#[verifier::external_body]
fn chrono_format_date(days: i32, format: &str) -> (r: Option<String>)
    ensures
        is_text_of(r, formatted_day_number(days, format@)),
{
    let date = chrono::NaiveDate::from_num_days_from_ce_opt(days)?;
    let mut out = String::new();
    match write!(out, "{}", date.format(format)) {
        Ok(()) => Some(out),
        Err(_) => None,
    }
}

/// Calls `chrono::NaiveDateTime::parse_from_str` and hands back what it read
/// as plain numbers. Trusted: that the answer depends on the two strings alone.
#[verifier::external_body]
fn chrono_parse_date_time(text: &str, format: &str) -> (r: Option<DateTime>)
    ensures
        match r {
            Some(t) => parsed_date_time(text@, format@) == Some((t.date.days, t.seconds, t.nanos)),
            None => parsed_date_time(text@, format@) is None,
        },
{
    match chrono::NaiveDateTime::parse_from_str(text, format) {
        Ok(t) => Some(
            DateTime {
                date: Date { days: t.date().num_days_from_ce() },
                seconds: t.time().num_seconds_from_midnight(),
                nanos: t.time().nanosecond(),
            },
        ),
        Err(_) => None,
    }
}

/// Writes a day and time with `chrono::NaiveDateTime::format`. Trusted: that
/// the text depends on the three numbers and the format alone.
#[verifier::external_body]
fn chrono_format_date_time(t: &DateTime, format: &str) -> (r: Option<String>)
    ensures
        is_text_of(r, formatted_date_time(t.date.days, t.seconds, t.nanos, format@)),
{
    let date = chrono::NaiveDate::from_num_days_from_ce_opt(t.date.days)?;
    let time = chrono::NaiveTime::from_num_seconds_from_midnight_opt(t.seconds, t.nanos)?;
    let mut out = String::new();
    match write!(out, "{}", date.and_time(time).format(format)) {
        Ok(()) => Some(out),
        Err(_) => None,
    }
}

impl Date {
    /// The date of the given year, month and day of the month, if the
    /// calendar has one.
    pub fn from_ymd_opt(year: i32, month: u32, day: u32) -> (r: Option<Date>)
        ensures
            r == Date::spec_from_ymd(year, month, day),
    {
        match chrono_from_ymd(year, month, day) {
            Some(days) => Some(Date { days }),
            None => None,
        }
    }

    pub open spec fn spec_from_ymd(year: i32, month: u32, day: u32) -> Option<Date> {
        match civil_day_number(year, month, day) {
            Some(days) => Some(Date { days }),
            None => None,
        }
    }

    /// The date read from `text` under the `chrono` format `format`.
    pub fn parse_from_str(text: &str, format: &str) -> (r: Option<Date>)
        ensures
            r == Date::spec_parse(text@, format@),
    {
        match chrono_parse_date(text, format) {
            Some(days) => Some(Date { days }),
            None => None,
        }
    }

    pub open spec fn spec_parse(text: Seq<char>, format: Seq<char>) -> Option<Date> {
        match parsed_day_number(text, format) {
            Some(days) => Some(Date { days }),
            None => None,
        }
    }

    /// The date written under the `chrono` format `format`; `None` for a day
    /// that the calendar cannot name or a format that is none.
    pub fn format(&self, format: &str) -> (r: Option<String>)
        ensures
            is_text_of(r, formatted_day_number(self.days, format@)),
    {
        chrono_format_date(self.days, format)
    }

    /// The day `delta` days later (earlier, for a negative `delta`).
    pub open spec fn plus_days(self, delta: int) -> int {
        self.days + delta
    }

    /// The date `delta` days away, unless the day number leaves the range of `i32`.
    pub fn checked_add_days(&self, delta: i64) -> (r: Option<Date>)
        ensures
            r is Some <==> i32::MIN <= self.plus_days(delta as int) <= i32::MAX,
            r matches Some(d) ==> d.days == self.plus_days(delta as int),
    {
        match (self.days as i64).checked_add(delta) {
            Some(target) => {
                if target < i32::MIN as i64 || target > i32::MAX as i64 {
                    None
                } else {
                    Some(Date { days: target as i32 })
                }
            },
            None => None,
        }
    }

    /// This day at the given hour, minute and second; `None` unless
    /// `hour < 24`, `min < 60` and `sec < 60`.
    pub fn and_hms_opt(&self, hour: u32, min: u32, sec: u32) -> (r: Option<DateTime>)
        ensures
            r == if hour < 24 && min < 60 && sec < 60 {
                Some(DateTime { date: *self, seconds: (hour * 3600 + min * 60 + sec) as u32, nanos: 0 })
            } else {
                None
            },
    {
        if hour < 24 && min < 60 && sec < 60 {
            Some(DateTime { date: *self, seconds: hour * 3600 + min * 60 + sec, nanos: 0 })
        } else {
            None
        }
    }
}

impl DateTime {
    /// The day, without the time.
    pub fn date(&self) -> (r: Date)
        ensures
            r == self.date,
    {
        self.date
    }

    /// The day and time read from `text` under the `chrono` format `format`.
    pub fn parse_from_str(text: &str, format: &str) -> (r: Option<DateTime>)
        ensures
            r == DateTime::spec_parse(text@, format@),
    {
        chrono_parse_date_time(text, format)
    }

    pub open spec fn spec_parse(text: Seq<char>, format: Seq<char>) -> Option<DateTime> {
        match parsed_date_time(text, format) {
            Some((days, seconds, nanos)) => Some(DateTime { date: Date { days }, seconds, nanos }),
            None => None,
        }
    }

    /// The day and time written under the `chrono` format `format`.
    pub fn format(&self, format: &str) -> (r: Option<String>)
        ensures
            is_text_of(r, self.spec_format(format@)),
    {
        chrono_format_date_time(self, format)
    }

    pub open spec fn spec_format(self, format: Seq<char>) -> Option<Seq<char>> {
        formatted_date_time(self.date.days, self.seconds, self.nanos, format)
    }
}

} // verus!
