use chrono::{Datelike, NaiveDate, TimeZone, Utc, Weekday};
use tootoo::time::kr_market::{
    base_date, configured_holidays, contains_day, previous_or_same_business_day,
    resolve_as_of_date, ResolveError,
};
use tootoo::time::{parse_datetime, Date, DateError, Timestamp, DATE_MAX_DAYS, DATE_MIN_DAYS};

fn day(y: i32, m: u32, d: u32) -> Date {
    Date::from_ymd(y, m, d).unwrap()
}

fn at(y: i32, mo: u32, d: u32, h: u32, mi: u32, s: u32) -> Timestamp {
    Timestamp { secs: Utc.with_ymd_and_hms(y, mo, d, h, mi, s).unwrap().timestamp(), nanos: 0 }
}

#[test]
fn rolls_back_on_weekend() {
    // 2026-01-03 is Saturday.
    let now = at(2026, 1, 3, 8, 0, 0);
    let d = resolve_as_of_date(None, now, &configured_holidays(None)).unwrap();
    // Before cutoff, base is 2026-01-02 (Friday) and weekend rollback shouldn't change it.
    assert_eq!(d, day(2026, 1, 2));
}

#[test]
fn uses_previous_day_before_cutoff() {
    // 2026-01-05 06:00 UTC = 15:00 KST (<16:00 cutoff)
    let now = at(2026, 1, 5, 6, 0, 0);
    let d = resolve_as_of_date(None, now, &configured_holidays(None)).unwrap();
    // Rolls back to Sunday, then to Friday.
    assert_eq!(d, day(2026, 1, 2));
}

#[test]
fn uses_same_day_after_cutoff() {
    // 2026-01-05 08:00 UTC = 17:00 KST (>=16:00 cutoff)
    let now = at(2026, 1, 5, 8, 0, 0);
    let d = resolve_as_of_date(None, now, &configured_holidays(None)).unwrap();
    assert_eq!(d, day(2026, 1, 5));
}

#[test]
fn the_cutoff_is_four_in_the_afternoon_in_korea() {
    // 06:59:59 UTC is 15:59:59 in Korea, 07:00:00 UTC is 16:00:00.
    assert_eq!(base_date(at(2026, 1, 6, 6, 59, 59)), Some(day(2026, 1, 5)));
    assert_eq!(base_date(at(2026, 1, 6, 7, 0, 0)), Some(day(2026, 1, 6)));
    // 15:00 UTC is midnight of the next day in Korea, before that day's cutoff.
    assert_eq!(base_date(at(2026, 1, 6, 14, 59, 59)), Some(day(2026, 1, 6)));
    assert_eq!(base_date(at(2026, 1, 6, 15, 0, 0)), Some(day(2026, 1, 6)));
    assert_eq!(base_date(at(1969, 12, 31, 7, 0, 0)), Some(day(1969, 12, 31)));
    assert_eq!(base_date(at(1969, 12, 31, 6, 59, 59)), Some(day(1969, 12, 30)));
}

#[test]
fn instants_beyond_the_calendar_have_no_day() {
    assert_eq!(base_date(Timestamp { secs: i64::MAX, nanos: 0 }), None);
    assert_eq!(base_date(Timestamp { secs: i64::MIN, nanos: 0 }), None);
    assert_eq!(
        resolve_as_of_date(None, Timestamp { secs: i64::MAX, nanos: 0 }, &Vec::new()),
        Err(ResolveError::OutOfRange)
    );
}

#[test]
fn a_given_day_is_taken_as_it_is() {
    let now = at(2026, 1, 5, 8, 0, 0);
    // A Saturday, and a holiday: a day that is given is not rolled back.
    assert_eq!(resolve_as_of_date(Some("2026-01-03"), now, &Vec::new()), Ok(day(2026, 1, 3)));
    assert_eq!(
        resolve_as_of_date(Some("2026-01-01"), now, &configured_holidays(None)),
        Ok(day(2026, 1, 1))
    );
    assert_eq!(
        resolve_as_of_date(Some("2026-13-01"), now, &Vec::new()),
        Err(ResolveError::InvalidDate(DateError::Malformed))
    );
    assert_eq!(
        resolve_as_of_date(Some("yesterday"), now, &Vec::new()),
        Err(ResolveError::InvalidDate(DateError::Malformed))
    );
}

#[test]
fn holidays_are_rolled_over() {
    // 2026-01-01 is a Thursday: the run of 2 January before the cutoff is for 31 December.
    let now = at(2026, 1, 2, 0, 0, 0);
    let holidays = configured_holidays(None);
    assert_eq!(resolve_as_of_date(None, now, &holidays), Ok(day(2025, 12, 31)));
    // Christmas 2026 is a Friday; 26 and 27 December are the weekend.
    let now = at(2026, 12, 27, 12, 0, 0);
    assert_eq!(resolve_as_of_date(None, now, &holidays), Ok(day(2026, 12, 24)));
    assert_eq!(resolve_as_of_date(None, now, &Vec::new()), Ok(day(2026, 12, 25)));
}

#[test]
fn configured_holidays_hold_the_fixed_days_and_the_listed_ones() {
    let fixed = configured_holidays(None);
    assert_eq!(fixed.len(), 14);
    for y in 2024..=2030 {
        assert!(contains_day(&fixed, day(y, 1, 1)));
        assert!(contains_day(&fixed, day(y, 12, 25)));
    }
    assert!(!contains_day(&fixed, day(2023, 1, 1)));
    assert!(!contains_day(&fixed, day(2031, 12, 25)));
    let listed = configured_holidays(Some(" 2026-02-17 ,,nonsense, 2026-03-01,2026-02-30,"));
    assert_eq!(listed.len(), 16);
    assert_eq!(listed[14], day(2026, 2, 17));
    assert_eq!(listed[15], day(2026, 3, 1));
    assert_eq!(configured_holidays(Some("")).len(), 14);
}

#[test]
fn the_last_business_day_is_found_behind_many_holidays() {
    let mut holidays = Vec::new();
    for d in 1..=28 {
        holidays.push(day(2026, 2, d));
    }
    assert_eq!(previous_or_same_business_day(day(2026, 2, 28), &holidays), Some(day(2026, 1, 30)));
    assert_eq!(previous_or_same_business_day(day(2026, 1, 30), &holidays), Some(day(2026, 1, 30)));
}

#[test]
fn no_business_day_lies_before_the_first_day() {
    let first = Date::from_days(DATE_MIN_DAYS).unwrap();
    let weekend = first.is_weekend();
    let found = previous_or_same_business_day(first, &Vec::new());
    assert_eq!(found.is_none(), weekend);
    assert_eq!(previous_or_same_business_day(first, &vec![first]), None);
    assert_eq!(first.pred(), None);
}

#[test]
fn the_range_of_dates_is_that_of_the_calendar_library() {
    assert_eq!(NaiveDate::MIN.num_days_from_ce(), DATE_MIN_DAYS);
    assert_eq!(NaiveDate::MAX.num_days_from_ce(), DATE_MAX_DAYS);
    assert!(Date::from_days(DATE_MIN_DAYS).is_some());
    assert!(Date::from_days(DATE_MAX_DAYS).is_some());
    assert!(Date::from_days(DATE_MIN_DAYS - 1).is_none());
    assert!(Date::from_days(DATE_MAX_DAYS + 1).is_none());
    assert_eq!(Date::from_days(DATE_MIN_DAYS).unwrap().to_text(), NaiveDate::MIN.to_string());
    assert_eq!(Date::from_days(DATE_MAX_DAYS).unwrap().to_text(), NaiveDate::MAX.to_string());
}

#[test]
fn weekends_agree_with_the_calendar_library() {
    let mut samples: Vec<i32> = (-20..=20).collect();
    samples.extend(730_000..730_030);
    samples.extend(DATE_MIN_DAYS..DATE_MIN_DAYS + 15);
    samples.extend(DATE_MAX_DAYS - 15..=DATE_MAX_DAYS);
    samples.extend((0..400).map(|k| 739_000 + k * 37));
    for n in samples {
        let theirs = NaiveDate::from_num_days_from_ce_opt(n).unwrap().weekday();
        let weekend = matches!(theirs, Weekday::Sat | Weekday::Sun);
        assert_eq!(Date::from_days(n).unwrap().is_weekend(), weekend, "day {n}");
    }
}

#[test]
fn dates_are_read_and_written_as_year_month_day() {
    let d = day(2026, 1, 27);
    assert_eq!(d.days_from_ce(), NaiveDate::from_ymd_opt(2026, 1, 27).unwrap().num_days_from_ce());
    assert_eq!(d.to_text(), "2026-01-27");
    assert_eq!(d.to_compact_text(), "20260127");
    assert_eq!(Date::parse_iso("2026-01-27"), Ok(d));
    assert_eq!(Date::parse_iso("2026-02-30"), Err(DateError::Malformed));
    assert_eq!(Date::parse_iso(""), Err(DateError::Malformed));
    assert_eq!(Date::from_ymd(2026, 2, 29), None);
    assert_eq!(Date::from_ymd(2028, 2, 29).unwrap().to_text(), "2028-02-29");
    assert_eq!(d.pred().unwrap().to_text(), "2026-01-26");
    assert!(d.same_day(&day(2026, 1, 27)));
    assert!(!d.same_day(&day(2026, 1, 26)));
}

#[test]
fn a_date_and_time_is_read_as_seconds() {
    assert_eq!(parse_datetime("1970-01-01 00:00:00"), Some(0));
    assert_eq!(parse_datetime("2026-01-30 05:00:44"), Some(1_769_749_244));
    assert_eq!(parse_datetime("2026-01-30"), None);
}

#[test]
fn a_calendar_without_a_business_day_resolves_to_none() {
    // The instant is 17:00 in Korea on the first day that a date can hold.
    let first = Date::from_days(DATE_MIN_DAYS).unwrap();
    let secs = (i64::from(DATE_MIN_DAYS) - 719_163) * 86_400 + 8 * 3_600;
    let now = Timestamp { secs, nanos: 0 };
    assert_eq!(base_date(now), Some(first));
    assert_eq!(resolve_as_of_date(None, now, &vec![first]), Err(ResolveError::NoBusinessDay));
    // An hour and a day earlier the day of the last close is before the calendar.
    let before = Timestamp { secs: secs - 2 * 3_600, nanos: 0 };
    assert_eq!(resolve_as_of_date(None, before, &Vec::new()), Err(ResolveError::OutOfRange));
}
