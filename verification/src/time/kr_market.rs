//! The trading day of the Korean market that a run is for.
//!
//! A run that is not told its day takes the day of the last close: today in Korean
//! time once the cutoff after the close has passed, else yesterday, and from there
//! back to the last day that is neither a weekend nor a holiday.

use crate::text::{bounds_of_fields, chars_of, fields, split_bounds, trim_bounds, trimmed};
use crate::time::{
    civil_days, date_in_range, iso_date_days, weekend_day, Date, DateError, Timestamp,
    DATE_MAX_DAYS, DATE_MIN_DAYS,
};
use vstd::prelude::*;
use vstd::string::StrSliceExecFns;

verus! {

/// How far Korean time is ahead of UTC, in seconds.
pub const KST_OFFSET_SECS: i64 = 32_400;

/// The hour of the cutoff in Korean time. The market closes at about 15:30.
pub const CLOSE_CUTOFF_HOUR_KST: i64 = 16;

/// The minute of the cutoff in Korean time.
pub const CLOSE_CUTOFF_MINUTE_KST: i64 = 0;

/// The day number of 1 January 1970.
pub const UNIX_EPOCH_DAYS: i64 = 719_163;

/// The first year whose fixed holidays are known.
pub const FIRST_HOLIDAY_YEAR: i32 = 2024;

/// The last year whose fixed holidays are known.
pub const LAST_HOLIDAY_YEAR: i32 = 2030;

/// Why no day was resolved.
#[derive(Clone, Copy, Debug, PartialEq, Eq, Structural)]
pub enum ResolveError {
    /// The day that was given is no date.
    InvalidDate(DateError),
    /// The instant lies outside the days that a date can hold.
    OutOfRange,
    /// No day at or before the instant is a business day.
    NoBusinessDay,
}

/// The day number in Korea at `secs` seconds after the start of 1970 in UTC.
pub open spec fn kst_day(secs: int) -> int {
    (secs + KST_OFFSET_SECS) / 86_400 + UNIX_EPOCH_DAYS
}

/// The second of the day in Korea at `secs` seconds after the start of 1970 in UTC.
pub open spec fn kst_second_of_day(secs: int) -> int {
    (secs + KST_OFFSET_SECS) % 86_400
}

/// Whether the cutoff of the day has passed in Korea.
pub open spec fn cutoff_reached(secs: int) -> bool {
    kst_second_of_day(secs) >= CLOSE_CUTOFF_HOUR_KST * 3_600 + CLOSE_CUTOFF_MINUTE_KST * 60
}

/// The day of the last close before the holidays and weekends are looked at.
pub open spec fn base_day(secs: int) -> int {
    if cutoff_reached(secs) {
        kst_day(secs)
    } else {
        kst_day(secs) - 1
    }
}

/// Whether `holidays` names the day with number `days`.
pub open spec fn is_holiday(days: int, holidays: Seq<Date>) -> bool {
    exists|i: int| 0 <= i < holidays.len() && (#[trigger] holidays[i])@ == days
}

/// Whether the market trades on the day with number `days`.
pub open spec fn business_day(days: int, holidays: Seq<Date>) -> bool {
    !weekend_day(days) && !is_holiday(days, holidays)
}

/// The last business day at or before the day with number `days`.
pub open spec fn roll_back(days: int, holidays: Seq<Date>) -> Option<int>
    decreases days - DATE_MIN_DAYS + 1,
{
    if days < DATE_MIN_DAYS {
        None
    } else if business_day(days, holidays) {
        Some(days)
    } else {
        roll_back(days - 1, holidays)
    }
}

/// The day number that a run is for: the day that was given, or else the last business
/// day at or before the day of the last close.
pub open spec fn resolved_day(arg: Option<Seq<char>>, secs: int, holidays: Seq<Date>) -> Result<
    int,
    ResolveError,
> {
    match arg {
        Some(text) => match iso_date_days(text) {
            Some(n) => if date_in_range(n) {
                Ok(n)
            } else {
                Err(ResolveError::InvalidDate(DateError::OutOfRange))
            },
            None => Err(ResolveError::InvalidDate(DateError::Malformed)),
        },
        None => if !date_in_range(base_day(secs)) {
            Err(ResolveError::OutOfRange)
        } else {
            match roll_back(base_day(secs), holidays) {
                Some(n) => Ok(n),
                None => Err(ResolveError::NoBusinessDay),
            }
        },
    }
}

/// What [`roll_back`] finds is a business day, and no day after it up to the start is.
pub proof fn lemma_roll_back(days: int, holidays: Seq<Date>)
    requires
        days <= DATE_MAX_DAYS,
    ensures
        match roll_back(days, holidays) {
            Some(n) => DATE_MIN_DAYS <= n <= days && business_day(n, holidays) && forall|d: int|
                n < d <= days ==> !business_day(d, holidays),
            None => forall|d: int| DATE_MIN_DAYS <= d <= days ==> !business_day(d, holidays),
        },
    decreases days - DATE_MIN_DAYS + 1,
{
    if days >= DATE_MIN_DAYS && !business_day(days, holidays) {
        lemma_roll_back(days - 1, holidays);
    }
}

/// Whether `holidays` names `day`.
pub fn contains_day(holidays: &Vec<Date>, day: Date) -> (r: bool)
    ensures
        r == is_holiday(day@, holidays@),
{
    let mut i: usize = 0;
    while i < holidays.len()
        invariant
            i <= holidays.len(),
            forall|j: int| 0 <= j < i ==> (#[trigger] holidays@[j])@ != day@,
        decreases holidays.len() - i,
    {
        if holidays[i].same_day(&day) {
            return true;
        }
        i += 1;
    }
    false
}

/// The day in Korea of the last close at the instant `now_utc`, where a date can hold
/// it: today once the cutoff has passed, else yesterday.
pub fn base_date(now_utc: Timestamp) -> (r: Option<Date>)
    ensures
        match r {
            Some(d) => d@ == base_day(now_utc.secs as int) && date_in_range(d@),
            None => !date_in_range(base_day(now_utc.secs as int)),
        },
{
    let secs = now_utc.secs;
    // No instant this far from 1970 falls on a day that a date can hold.
    if secs < -9_000_000_000_000 || secs > 9_000_000_000_000 {
        return None;
    }
    // 9_504_000_000_000 is 110_000_000 days, which makes the sum positive.
    let shifted: i64 = secs + KST_OFFSET_SECS + 9_504_000_000_000;
    let day: i64 = shifted / 86_400 - 110_000_000 + UNIX_EPOCH_DAYS;
    let second_of_day: i64 = shifted % 86_400;
    assert(day == kst_day(secs as int));
    assert(second_of_day == kst_second_of_day(secs as int));
    let base: i64 = if second_of_day >= CLOSE_CUTOFF_HOUR_KST * 3_600 + CLOSE_CUTOFF_MINUTE_KST
        * 60 {
        day
    } else {
        day - 1
    };
    if base < DATE_MIN_DAYS as i64 || base > DATE_MAX_DAYS as i64 {
        return None;
    }
    Date::from_days(base as i32)
}

/// The last business day at or before `day`.
pub fn previous_or_same_business_day(day: Date, holidays: &Vec<Date>) -> (r: Option<Date>)
    ensures
        match r {
            Some(d) => roll_back(day@, holidays@) == Some(d@),
            None => roll_back(day@, holidays@) is None,
        },
{
    let mut date = day;
    loop
        invariant
            roll_back(day@, holidays@) == roll_back(date@, holidays@),
        decreases date@ - DATE_MIN_DAYS,
    {
        if !date.is_weekend() && !contains_day(holidays, date) {
            return Some(date);
        }
        match date.pred() {
            Some(before) => {
                date = before;
            },
            None => {
                assert(roll_back(date@ - 1, holidays@) is None);
                return None;
            },
        }
    }
}

/// The day that a run is for. A day that is given as `YYYY-MM-DD` is taken as it is.
/// Otherwise it is the last business day at or before the day of the last close
/// at `now_utc`: a day that is no weekend and that `holidays` does not name.
pub fn resolve_as_of_date(
    as_of_date_arg: Option<&str>,
    now_utc: Timestamp,
    holidays: &Vec<Date>,
) -> (r: Result<Date, ResolveError>)
    ensures
        match r {
            Ok(d) => resolved_day(
                match as_of_date_arg {
                    Some(s) => Some(s@),
                    None => None,
                },
                now_utc.secs as int,
                holidays@,
            ) == Ok::<int, ResolveError>(d@),
            Err(e) => resolved_day(
                match as_of_date_arg {
                    Some(s) => Some(s@),
                    None => None,
                },
                now_utc.secs as int,
                holidays@,
            ) == Err::<int, ResolveError>(e),
        },
{
    if let Some(text) = as_of_date_arg {
        return match Date::parse_iso(text) {
            Ok(d) => Ok(d),
            Err(e) => Err(ResolveError::InvalidDate(e)),
        };
    }
    let base = match base_date(now_utc) {
        Some(d) => d,
        None => {
            return Err(ResolveError::OutOfRange);
        },
    };
    match previous_or_same_business_day(base, holidays) {
        Some(d) => Ok(d),
        None => Err(ResolveError::NoBusinessDay),
    }
}

/// The day number of `year`-`month`-`day`, where the day exists and a date can hold
/// it.
pub open spec fn civil_date(year: int, month: int, day: int) -> Option<int> {
    match civil_days(year, month, day) {
        Some(n) => if date_in_range(n) {
            Some(n)
        } else {
            None
        },
        None => None,
    }
}

/// A sequence of the one value in `o`, or of none.
pub open spec fn one_or_none(o: Option<int>) -> Seq<int> {
    match o {
        Some(n) => seq![n],
        None => Seq::empty(),
    }
}

/// The holidays of a year that fall on the same day every year: New Year's Day and
/// Christmas Day.
pub open spec fn fixed_days(year: int) -> Seq<int> {
    one_or_none(civil_date(year, 1, 1)) + one_or_none(civil_date(year, 12, 25))
}

/// The fixed holidays of the years `from` to `to`.
pub open spec fn fixed_holiday_days(from: int, to: int) -> Seq<int>
    decreases to - from + 1,
{
    if from > to {
        Seq::empty()
    } else {
        fixed_holiday_days(from, to - 1) + fixed_days(to)
    }
}

/// The day that one part of a list of holidays names: the part is trimmed, and names a
/// day if it is one written as `YYYY-MM-DD` that a date can hold.
pub open spec fn field_day(part: Seq<char>) -> Option<int> {
    let t = trimmed(part);
    if t.len() == 0 {
        None
    } else {
        match iso_date_days(t) {
            Some(n) => if date_in_range(n) {
                Some(n)
            } else {
                None
            },
            None => None,
        }
    }
}

/// The days that the parts of a list name, in the list's order.
pub open spec fn days_of_fields(parts: Seq<Seq<char>>) -> Seq<int>
    decreases parts.len(),
{
    if parts.len() == 0 {
        Seq::empty()
    } else {
        days_of_fields(parts.drop_last()) + one_or_none(field_day(parts.last()))
    }
}

/// The day numbers of the holidays: the fixed ones of the known years, then the days
/// of the list `extra`, whose parts commas part.
pub open spec fn holiday_days(extra: Option<Seq<char>>) -> Seq<int> {
    fixed_holiday_days(FIRST_HOLIDAY_YEAR as int, LAST_HOLIDAY_YEAR as int) + match extra {
        Some(text) => days_of_fields(fields(text, ',')),
        None => Seq::empty(),
    }
}

/// The day numbers of dates.
pub open spec fn day_numbers(dates: Seq<Date>) -> Seq<int> {
    dates.map_values(|d: Date| d@)
}

/// Appends the day `year`-`month`-`day` to `out`, where there is such a day.
fn push_civil(out: &mut Vec<Date>, year: i32, month: u32, day: u32)
    ensures
        day_numbers(final(out)@) == day_numbers(old(out)@) + one_or_none(
            civil_date(year as int, month as int, day as int),
        ),
{
    match Date::from_ymd(year, month, day) {
        Some(d) => {
            out.push(d);
            assert(day_numbers(out@) =~= day_numbers(old(out)@) + seq![d@]);
        },
        None => {
            assert(day_numbers(out@) =~= day_numbers(old(out)@) + Seq::<int>::empty());
        },
    }
}

/// The holidays of the market: New Year's Day and Christmas Day of the known years,
/// and the days of `extra`, a list of days written as `YYYY-MM-DD` with commas between
/// them. What is no day in that list is passed over.
pub fn configured_holidays(extra: Option<&str>) -> (r: Vec<Date>)
    ensures
        day_numbers(r@) == holiday_days(
            match extra {
                Some(s) => Some(s@),
                None => None,
            },
        ),
{
    let mut out: Vec<Date> = Vec::new();
    let mut year: i32 = FIRST_HOLIDAY_YEAR;
    assert(day_numbers(out@) =~= fixed_holiday_days(
        FIRST_HOLIDAY_YEAR as int,
        FIRST_HOLIDAY_YEAR - 1,
    ));
    while year <= LAST_HOLIDAY_YEAR
        invariant
            FIRST_HOLIDAY_YEAR <= year <= LAST_HOLIDAY_YEAR + 1,
            day_numbers(out@) == fixed_holiday_days(FIRST_HOLIDAY_YEAR as int, year - 1),
        decreases LAST_HOLIDAY_YEAR + 1 - year,
    {
        let ghost before = day_numbers(out@);
        push_civil(&mut out, year, 1, 1);
        push_civil(&mut out, year, 12, 25);
        assert(day_numbers(out@) =~= before + fixed_days(year as int));
        year += 1;
    }
    let text = match extra {
        Some(s) => s,
        None => {
            assert(day_numbers(out@) =~= holiday_days(None));
            return out;
        },
    };
    let v = chars_of(text);
    let bounds = split_bounds(&v, ',');
    let ghost parts = fields(text@, ',');
    let ghost fixed = day_numbers(out@);
    let mut k: usize = 0;
    assert(parts.take(0) =~= Seq::<Seq<char>>::empty());
    assert(day_numbers(out@) =~= fixed + days_of_fields(parts.take(0)));
    while k < bounds.len()
        invariant
            k <= bounds.len(),
            v@ == text@,
            parts == fields(text@, ','),
            bounds_of_fields(bounds@, v@, parts),
            day_numbers(out@) == fixed + days_of_fields(parts.take(k as int)),
        decreases bounds.len() - k,
    {
        let (lo, hi) = bounds[k];
        let ghost before = day_numbers(out@);
        let ghost part = parts[k as int];
        assert(v@.subrange(lo as int, hi as int) == part);
        let (a, b) = trim_bounds(&v, lo, hi);
        if a < b {
            match Date::parse_iso(text.substring_char(a, b)) {
                Ok(d) => {
                    out.push(d);
                    assert(day_numbers(out@) =~= before + seq![d@]);
                },
                Err(_) => {},
            }
        }
        proof {
            assert(day_numbers(out@) =~= before + one_or_none(field_day(part)));
            assert(parts.take(k + 1).drop_last() =~= parts.take(k as int));
            assert(parts.take(k + 1).last() == part);
        }
        k += 1;
    }
    assert(parts.take(bounds.len() as int) =~= parts);
    out
}

} // verus!
