use chrono::{DateTime, Utc};
use urinal_fish_bot::calendar::{Date, UtcTimestamp};
use urinal_fish_bot::easter_egg::{
    choose_message, daily_roll, format_taunt_message, message_for_random, range_from_random,
    roll_day, roll_today, trigger_date,
};
use urinal_fish_bot::models::EasterEggSettings;

#[test]
fn trigger_date_uses_configured_timezone() {
    let now = "2026-06-17T22:30:00Z".parse::<DateTime<Utc>>().unwrap();
    let now = UtcTimestamp { secs: now.timestamp(), nanos: 0 };

    assert_eq!(trigger_date(now, "Europe/Berlin").unwrap().to_iso_string(), "2026-06-18");
}

#[test]
fn trigger_date_of_unknown_zone_is_none() {
    assert!(trigger_date(UtcTimestamp { secs: 0, nanos: 0 }, "Mars/Olympus").is_none());
}

#[test]
fn formats_taunt_message_with_target_mention() {
    let message = format_taunt_message(123, "Bring a permission slip.");

    assert_eq!(message, "<@123> Bring a permission slip.");
}

#[test]
fn random_numbers_map_into_range() {
    assert_eq!(range_from_random(5, 9, 0), 5);
    assert_eq!(range_from_random(5, 9, 7), 7);
    assert_eq!(range_from_random(0, u64::MAX, u128::MAX), u64::MAX);
    let msgs = vec!["a".to_string(), "b".to_string(), "c".to_string()];
    assert_eq!(message_for_random(&msgs, 4), Some("b".to_string()));
    assert_eq!(message_for_random(&vec![], 4), None);
}

#[test]
fn choose_message_picks_one_of_them() {
    let msgs = vec!["a".to_string(), "b".to_string()];
    for _ in 0..20 {
        let m = choose_message(&msgs).unwrap();
        assert!(msgs.contains(&m));
    }
    assert_eq!(choose_message(&vec![]), None);
}


#[test]
fn dates_are_written_as_iso_8601() {
    assert_eq!(Date { year: 2026, month: 6, day: 8 }.to_iso_string(), "2026-06-08");
    assert_eq!(Date { year: 33, month: 12, day: 31 }.to_iso_string(), "0033-12-31");
    assert_eq!(Date { year: -44, month: 3, day: 15 }.to_iso_string(), "-0044-03-15");
    assert_eq!(Date { year: 12345, month: 1, day: 1 }.to_iso_string(), "+12345-01-01");
}

#[test]
fn calendar_range_check() {
    assert!(UtcTimestamp { secs: 0, nanos: 0 }.is_in_calendar_range());
    assert!(!UtcTimestamp { secs: i64::MAX, nanos: 0 }.is_in_calendar_range());
    assert!(!UtcTimestamp { secs: 0, nanos: 1_000_000_000 }.is_in_calendar_range());
}


fn egg_settings() -> EasterEggSettings {
    EasterEggSettings {
        enabled: true,
        target_user_id: 7,
        channel_id: 9,
        window_start_minute: 540,
        window_end_minute: 1320,
        updated_by: 1,
    }
}

#[test]
fn the_roll_is_due_from_four_in_the_morning() {
    // 2026-06-18 01:59 UTC is 03:59 in Berlin; 02:00 UTC is 04:00.
    let before = UtcTimestamp { secs: 1_781_747_940, nanos: 0 };
    let at_four = UtcTimestamp { secs: 1_781_748_000, nanos: 0 };
    assert!(roll_day(Some(egg_settings()), before, "Europe/Berlin").is_none());
    let day = roll_day(Some(egg_settings()), at_four, "Europe/Berlin").unwrap();
    assert_eq!(day.to_iso_string(), "2026-06-18");
    let off = EasterEggSettings { enabled: false, ..egg_settings() };
    assert!(roll_day(Some(off), at_four, "Europe/Berlin").is_none());
    assert!(roll_day(None, at_four, "Europe/Berlin").is_none());
}

#[test]
fn an_eleven_plans_a_taunt_in_the_window() {
    let day = Date { year: 2026, month: 6, day: 18 };
    let msgs = vec!["a".to_string(), "b".to_string()];
    // 10 % 20 + 1 == 11; minute 540 + 60 == 600, 10:00 in Berlin, 08:00 UTC.
    let r = daily_roll(&egg_settings(), day, "Europe/Berlin", &msgs, 10, 60, 3);
    assert_eq!(r.run_date, "2026-06-18");
    assert_eq!(r.roll, 11);
    let t = r.taunt.unwrap();
    assert_eq!(t.scheduled_at, UtcTimestamp { secs: 1_781_769_600, nanos: 0 });
    assert_eq!((t.target_user_id, t.channel_id), (7, 9));
    assert_eq!(t.message, "b");
}

#[test]
fn other_rolls_plan_nothing() {
    let day = Date { year: 2026, month: 6, day: 18 };
    let msgs = vec!["a".to_string()];
    let r = daily_roll(&egg_settings(), day, "Europe/Berlin", &msgs, 0, 0, 0);
    assert_eq!(r.roll, 1);
    assert!(r.taunt.is_none());
    let r = daily_roll(&egg_settings(), day, "Europe/Berlin", &vec![], 10, 0, 0);
    assert_eq!(r.roll, 11);
    assert!(r.taunt.is_none());
    let backwards = EasterEggSettings { window_start_minute: 600, window_end_minute: 500, ..egg_settings() };
    assert!(daily_roll(&backwards, day, "Europe/Berlin", &msgs, 10, 0, 0).taunt.is_none());
}

#[test]
fn todays_roll_is_a_die_roll() {
    let day = Date { year: 2026, month: 6, day: 18 };
    let msgs = vec!["a".to_string()];
    for _ in 0..50 {
        let r = roll_today(&egg_settings(), day, "Europe/Berlin", &msgs);
        assert!((1..=20).contains(&r.roll));
        if let Some(t) = r.taunt {
            assert_eq!(r.roll, 11);
            assert_eq!(t.message, "a");
        }
    }
}
