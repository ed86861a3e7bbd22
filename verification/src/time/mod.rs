//! Calendar days and instants as plain integers.

pub mod kr_market;

use chrono::Datelike;
use vstd::pervasive::unreached;
use vstd::prelude::*;

verus! {

/// The day number of the earliest day that a [`Date`] can hold.
pub const DATE_MIN_DAYS: i32 = -95_746_129;

/// The day number of the latest day that a [`Date`] can hold.
pub const DATE_MAX_DAYS: i32 = 95_745_399;

/// Whether `days` is the day number of a representable calendar day.
pub open spec fn date_in_range(days: int) -> bool {
    DATE_MIN_DAYS <= days <= DATE_MAX_DAYS
}

/// The day of the week of day number `days`, counted from Monday as 0. Day 1 is
/// Monday, 1 January of the year 1.
pub open spec fn weekday_index(days: int) -> int {
    (days - 1) % 7
}

/// Whether day number `days` is a Saturday or a Sunday.
pub open spec fn weekend_day(days: int) -> bool {
    weekday_index(days) >= 5
}

/// The day number of the calendar day `year`-`month`-`day`, as
/// `chrono::NaiveDate::from_ymd_opt` and `num_days_from_ce` give it.
pub uninterp spec fn civil_days(year: int, month: int, day: int) -> Option<int>;

/// The day number that `chrono::NaiveDate::parse_from_str` reads from `text` with the
/// format `%Y-%m-%d`.
pub uninterp spec fn iso_date_days(text: Seq<char>) -> Option<int>;

/// The text that chrono's `Display` writes for day number `days` (`%Y-%m-%d`).
pub uninterp spec fn date_text(days: int) -> Seq<char>;

/// The text of day number `days` in chrono's format `%Y%m%d`.
pub uninterp spec fn compact_date_text(days: int) -> Seq<char>;

/// The seconds from the start of 1970 to the date and time that
/// `chrono::NaiveDateTime::parse_from_str` reads from `text` with the format
/// `%Y-%m-%d %H:%M:%S`, no offset applied.
pub uninterp spec fn datetime_seconds(text: Seq<char>) -> Option<int>;

/// The error of chrono's parsers.
#[verifier::external_type_specification]
#[verifier::external_body]
pub struct ExParseError(chrono::ParseError);

/// Calls `NaiveDate::from_ymd_opt` and, on a date, `num_days_from_ce`. The result is
/// [`civil_days`] by definition.
#[verifier::external_body]
fn ymd_to_days(year: i32, month: u32, day: u32) -> (r: Option<i32>)
    ensures
        match r {
            Some(n) => civil_days(year as int, month as int, day as int) == Some(n as int),
            None => civil_days(year as int, month as int, day as int) is None,
        },
{
    match chrono::NaiveDate::from_ymd_opt(year, month, day) {
        Some(d) => Some(d.num_days_from_ce()),
        None => None,
    }
}

/// Calls `NaiveDate::parse_from_str` with `%Y-%m-%d` and, on a date, `num_days_from_ce`.
/// The result is [`iso_date_days`] by definition; the error is chrono's.
#[verifier::external_body]
fn parse_iso_days(text: &str) -> (r: Result<i32, chrono::ParseError>)
    ensures
        match r {
            Ok(n) => iso_date_days(text@) == Some(n as int),
            Err(_) => iso_date_days(text@) is None,
        },
{
    match chrono::NaiveDate::parse_from_str(text, "%Y-%m-%d") {
        Ok(d) => Ok(d.num_days_from_ce()),
        Err(e) => Err(e),
    }
}

/// Calls `NaiveDateTime::parse_from_str` with `%Y-%m-%d %H:%M:%S` and, on a date and
/// time, `and_utc().timestamp()`. The result is [`datetime_seconds`] by definition; the
/// error is chrono's.
#[verifier::external_body]
fn parse_datetime_seconds(text: &str) -> (r: Result<i64, chrono::ParseError>)
    ensures
        match r {
            Ok(n) => datetime_seconds(text@) == Some(n as int),
            Err(_) => datetime_seconds(text@) is None,
        },
{
    match chrono::NaiveDateTime::parse_from_str(text, "%Y-%m-%d %H:%M:%S") {
        Ok(t) => Ok(t.and_utc().timestamp()),
        Err(e) => Err(e),
    }
}

/// Calls `NaiveDate::from_num_days_from_ce_opt`, which has a date for every day number
/// from [`DATE_MIN_DAYS`] to [`DATE_MAX_DAYS`], the day numbers of chrono's first and
/// last date, and writes the date with `Display`. The text is [`date_text`] by
/// definition.
#[verifier::external_body]
fn format_iso_days(days: i32) -> (r: Option<String>)
    ensures
        date_in_range(days as int) ==> r is Some,
        r matches Some(text) ==> text@ == date_text(days as int),
{
    let date = chrono::NaiveDate::from_num_days_from_ce_opt(days)?;
    Some(date.to_string())
}

/// Calls `NaiveDate::from_num_days_from_ce_opt`, which has a date for every day number
/// from [`DATE_MIN_DAYS`] to [`DATE_MAX_DAYS`], and writes the date with
/// `format("%Y%m%d")`. The text is [`compact_date_text`] by definition.
#[verifier::external_body]
fn format_compact_days(days: i32) -> (r: Option<String>)
    ensures
        date_in_range(days as int) ==> r is Some,
        r matches Some(text) ==> text@ == compact_date_text(days as int),
{
    let date = chrono::NaiveDate::from_num_days_from_ce_opt(days)?;
    Some(date.format("%Y%m%d").to_string())
}

/// A calendar day of the proleptic Gregorian calendar, held as its day number:
/// 1 January of the year 1 is day 1.
#[derive(Clone, Copy, Debug, PartialEq, Eq, Structural)]
pub struct Date {
    days: i32,
}

/// Why a text is no date.
#[derive(Clone, Copy, Debug, PartialEq, Eq, Structural)]
pub enum DateError {
    /// The text is not a calendar day written as year, month and day.
    Malformed,
    /// The day lies outside the days that a [`Date`] can hold.
    OutOfRange,
}

impl View for Date {
    type V = int;

    closed spec fn view(&self) -> int {
        self.days as int
    }
}

impl Date {
    #[verifier::type_invariant]
    spec fn in_range(self) -> bool {
        date_in_range(self.days as int)
    }

    /// The day with day number `days`, where there is one.
    pub fn from_days(days: i32) -> (r: Option<Date>)
        ensures
            match r {
                Some(d) => date_in_range(days as int) && d@ == days,
                None => !date_in_range(days as int),
            },
    {
        if DATE_MIN_DAYS <= days && days <= DATE_MAX_DAYS {
            Some(Date { days })
        } else {
            None
        }
    }

    /// The day number, which lies in the range of dates.
    pub fn days_from_ce(&self) -> (r: i32)
        ensures
            r == self@,
            date_in_range(self@),
    {
        proof {
            use_type_invariant(self);
        }
        self.days
    }

    /// The calendar day `year`-`month`-`day`, where it exists.
    pub fn from_ymd(year: i32, month: u32, day: u32) -> (r: Option<Date>)
        ensures
            match r {
                Some(d) => civil_days(year as int, month as int, day as int) == Some(d@)
                    && date_in_range(d@),
                None => match civil_days(year as int, month as int, day as int) {
                    Some(n) => !date_in_range(n),
                    None => true,
                },
            },
    {
        match ymd_to_days(year, month, day) {
            Some(n) => Date::from_days(n),
            None => None,
        }
    }

    /// Reads a day written as `YYYY-MM-DD`.
    pub fn parse_iso(text: &str) -> (r: Result<Date, DateError>)
        ensures
            match r {
                Ok(d) => iso_date_days(text@) == Some(d@) && date_in_range(d@),
                Err(DateError::Malformed) => iso_date_days(text@) is None,
                Err(DateError::OutOfRange) => iso_date_days(text@) matches Some(n)
                    && !date_in_range(n),
            },
    {
        match parse_iso_days(text) {
            Ok(n) => match Date::from_days(n) {
                Some(d) => Ok(d),
                None => Err(DateError::OutOfRange),
            },
            Err(_) => Err(DateError::Malformed),
        }
    }

    /// The day written as `YYYY-MM-DD`.
    pub fn to_text(&self) -> (r: String)
        ensures
            r@ == date_text(self@),
    {
        proof {
            use_type_invariant(self);
        }
        match format_iso_days(self.days) {
            Some(text) => text,
            None => unreached(),
        }
    }

    /// The day written as `YYYYMMDD`.
    pub fn to_compact_text(&self) -> (r: String)
        ensures
            r@ == compact_date_text(self@),
    {
        proof {
            use_type_invariant(self);
        }
        match format_compact_days(self.days) {
            Some(text) => text,
            None => unreached(),
        }
    }

    /// Whether the day is a Saturday or a Sunday.
    pub fn is_weekend(&self) -> (r: bool)
        ensures
            r == weekend_day(self@),
            date_in_range(self@),
    {
        proof {
            use_type_invariant(self);
        }
        // 95_746_133 is a multiple of 7 above the distance of the earliest day from day 1.
        let shifted: i32 = self.days - 1 + 95_746_133;
        shifted % 7 >= 5
    }

    /// The day before, where there is one.
    pub fn pred(&self) -> (r: Option<Date>)
        ensures
            match r {
                Some(d) => d@ == self@ - 1 && date_in_range(d@),
                None => self@ == DATE_MIN_DAYS,
            },
    {
        proof {
            use_type_invariant(self);
        }
        if self.days > DATE_MIN_DAYS {
            Some(Date { days: self.days - 1 })
        } else {
            None
        }
    }

    /// Whether the two are the same day.
    pub fn same_day(&self, other: &Date) -> (r: bool)
        ensures
            r == (self@ == other@),
            r == (*self == *other),
    {
        self.days == other.days
    }
}

/// Two dates with the same day number are the same date.
pub proof fn lemma_date_by_days(a: Date, b: Date)
    ensures
        (a@ == b@) == (a == b),
{
}

/// An instant: whole seconds since 1970-01-01T00:00:00Z, and the nanoseconds after
/// them.
#[derive(Clone, Copy, Debug, PartialEq, Eq, Structural)]
pub struct Timestamp {
    pub secs: i64,
    pub nanos: u32,
}

/// The seconds from the start of 1970 to a date and time written as
/// `YYYY-MM-DD HH:MM:SS`, read as if it were UTC.
pub fn parse_datetime(text: &str) -> (r: Option<i64>)
    ensures
        match r {
            Some(n) => datetime_seconds(text@) == Some(n as int),
            None => datetime_seconds(text@) is None,
        },
{
    match parse_datetime_seconds(text) {
        Ok(n) => Some(n),
        Err(_) => None,
    }
}

} // verus!
