use chrono::{TimeZone, Utc};
use urinal_fish_bot::calendar::{TimeOfDay, UtcTimestamp, Weekday};
use urinal_fish_bot::recurrence::{next_occurrence, Recurrence, RecurrenceError};

fn ts(y: i32, mo: u32, d: u32, h: u32, mi: u32, s: u32) -> UtcTimestamp {
    let t = Utc.with_ymd_and_hms(y, mo, d, h, mi, s).unwrap();
    UtcTimestamp { secs: t.timestamp(), nanos: 0 }
}

#[test]
fn parses_weekly_schedule() {
    let parsed = Recurrence::parse("weekly fri 20:00").unwrap();

    assert_eq!(
        parsed,
        Recurrence::Weekly {
            weekday: Weekday::Fri,
            time: TimeOfDay { hour: 20, minute: 0 },
        }
    );
}

#[test]
fn finds_next_daily_occurrence() {
    let after = ts(2026, 6, 17, 17, 0, 0);
    let next = next_occurrence("daily 20:00", "Europe/Berlin", after).unwrap();

    assert_eq!(next, ts(2026, 6, 17, 18, 0, 0));
}

#[test]
fn rolls_weekly_occurrence_to_following_week() {
    let after = ts(2026, 6, 19, 19, 0, 0);
    let next = next_occurrence("weekly fri 20:00", "Europe/Berlin", after).unwrap();

    assert_eq!(next, ts(2026, 6, 26, 18, 0, 0));
}

#[test]
fn clamps_monthly_day_to_end_of_month() {
    let after = ts(2026, 2, 1, 0, 0, 0);
    let next = next_occurrence("monthly 31 20:00", "Europe/Berlin", after).unwrap();

    assert_eq!(next, ts(2026, 2, 28, 19, 0, 0));
}

#[test]
fn parses_every_schedule_form() {
    let t = |h, m| TimeOfDay { hour: h, minute: m };
    assert_eq!(Recurrence::parse("daily 19:00").unwrap(), Recurrence::Daily { time: t(19, 0) });
    assert_eq!(Recurrence::parse("Every Day, 7:05").unwrap_err(), RecurrenceError::UnrecognizedSchedule);
    assert_eq!(Recurrence::parse("every everyday 07:05").unwrap(), Recurrence::Daily { time: t(7, 5) });
    assert_eq!(Recurrence::parse("FRIDAY 20:00").unwrap(), Recurrence::Weekly { weekday: Weekday::Fri, time: t(20, 0) });
    assert_eq!(Recurrence::parse("weekly,thurs,08:30").unwrap(), Recurrence::Weekly { weekday: Weekday::Thu, time: t(8, 30) });
    assert_eq!(Recurrence::parse("monthly 15 19:30").unwrap(), Recurrence::Monthly { day: 15, time: t(19, 30) });
}

#[test]
fn reports_each_schedule_error() {
    assert_eq!(Recurrence::parse("weekly funday 20:00").unwrap_err(), RecurrenceError::UnknownWeekday);
    assert_eq!(Recurrence::parse("daily 25:00").unwrap_err(), RecurrenceError::TimeFormat);
    assert_eq!(Recurrence::parse("monthly x 19:30").unwrap_err(), RecurrenceError::MonthlyDayNotNumber);
    assert_eq!(Recurrence::parse("monthly 32 19:30").unwrap_err(), RecurrenceError::MonthlyDayOutOfRange);
    assert_eq!(Recurrence::parse("monthly 0 19:30").unwrap_err(), RecurrenceError::MonthlyDayOutOfRange);
    assert_eq!(Recurrence::parse("sometimes").unwrap_err(), RecurrenceError::UnrecognizedSchedule);
    assert_eq!(RecurrenceError::MonthlyDayNotNumber.message(), "monthly day must be a number");
    assert_eq!(
        RecurrenceError::UnrecognizedSchedule.message(),
        "use schedules like `daily 19:00`, `weekly fri 20:00`, or `monthly 15 19:30`"
    );
}

#[test]
fn daily_rolls_to_the_next_day_once_the_time_passed() {
    let after = ts(2026, 6, 17, 18, 0, 0);
    let next = next_occurrence("daily 20:00", "Europe/Berlin", after).unwrap();
    assert_eq!(next, ts(2026, 6, 18, 18, 0, 0));
}

#[test]
fn weekly_on_the_same_day_before_the_time_stays_this_week() {
    let after = ts(2026, 6, 19, 17, 0, 0);
    let next = next_occurrence("fri 20:00", "Europe/Berlin", after).unwrap();
    assert_eq!(next, ts(2026, 6, 19, 18, 0, 0));
}

#[test]
fn monthly_rolls_over_the_year_end() {
    let after = ts(2026, 12, 20, 0, 0, 0);
    let next = next_occurrence("monthly 15 10:00", "UTC", after).unwrap();
    assert_eq!(next, ts(2027, 1, 15, 10, 0, 0));
}

#[test]
fn nonexistent_local_time_moves_one_hour_later() {
    // 2026-03-29 02:30 does not exist in Berlin; it becomes 03:30 CEST.
    let after = ts(2026, 3, 28, 12, 0, 0);
    let next = next_occurrence("daily 02:30", "Europe/Berlin", after).unwrap();
    assert_eq!(next, ts(2026, 3, 29, 1, 30, 0));
}

#[test]
fn ambiguous_local_time_takes_the_earlier_instant() {
    // 2026-10-25 02:30 happens twice in Berlin; the first is 00:30 UTC.
    let after = ts(2026, 10, 24, 12, 0, 0);
    let next = next_occurrence("daily 02:30", "Europe/Berlin", after).unwrap();
    assert_eq!(next, ts(2026, 10, 25, 0, 30, 0));
}

#[test]
fn unknown_zone_is_reported() {
    let after = ts(2026, 6, 17, 17, 0, 0);
    assert_eq!(next_occurrence("daily 20:00", "Mars/Olympus", after).unwrap_err(), RecurrenceError::UnknownTimeZone);
}

#[test]
fn next_is_strictly_after_even_at_the_exact_instant() {
    let after = ts(2026, 6, 17, 18, 0, 0);
    let next = Recurrence::parse("daily 20:00").unwrap().next_after("Europe/Berlin", after).unwrap();
    assert!(next.secs > after.secs);
    let with_nanos = UtcTimestamp { secs: ts(2026, 6, 17, 17, 59, 59).secs, nanos: 999_999_999 };
    let next = Recurrence::parse("daily 20:00").unwrap().next_after("Europe/Berlin", with_nanos).unwrap();
    assert_eq!(next, ts(2026, 6, 17, 18, 0, 0));
}
