use chrono::{TimeZone, Utc};
use urinal_fish_bot::calendar::{Date, TimeOfDay, UtcTimestamp};
use urinal_fish_bot::choices::{default_choices, parse_choices};
use urinal_fish_bot::commands::parse_notification;
use urinal_fish_bot::discord::choice_field_value;
use urinal_fish_bot::easter_egg::roll_needed;
use urinal_fish_bot::models::{RecurringSeries, Vote};
use urinal_fish_bot::recurrence::{Recurrence, RecurrenceError};
use urinal_fish_bot::scheduler::next_post_after_posting;
use urinal_fish_bot::validation::template_name;

fn at(y: i32, mo: u32, d: u32, h: u32, mi: u32) -> UtcTimestamp {
    let t = Utc.with_ymd_and_hms(y, mo, d, h, mi, 0).unwrap();
    UtcTimestamp { secs: t.timestamp(), nanos: 0 }
}

fn series(schedule: &str) -> RecurringSeries {
    RecurringSeries {
        id: "a1b2c3d4".to_string(),
        title: "Quiz".to_string(),
        description: None,
        schedule: schedule.to_string(),
        when: "Tonight".to_string(),
        location: None,
        timezone: "Europe/Berlin".to_string(),
        choices: vec!["yes".to_string(), "no".to_string()],
        notification: None,
        channel_id: 7,
        created_by: 9,
        created_by_name: None,
        next_post_at: at(2026, 6, 17, 18, 0),
    }
}

#[test]
fn series_time_moves_only_after_a_successful_post() {
    let s = series("daily 20:00");
    let now = at(2026, 6, 17, 18, 0);
    assert_eq!(next_post_after_posting(&s, false, now), Ok(None));
    assert_eq!(next_post_after_posting(&s, true, now), Ok(Some(at(2026, 6, 18, 18, 0))));
    let broken = series("sometimes");
    assert_eq!(next_post_after_posting(&broken, false, now), Ok(None));
    assert_eq!(
        next_post_after_posting(&broken, true, now),
        Err(RecurrenceError::UnrecognizedSchedule)
    );
}

#[test]
fn a_day_is_rolled_once() {
    let day = Date { year: 2026, month: 6, day: 17 };
    assert_eq!(roll_needed(Some(day), false), Some(day));
    assert_eq!(roll_needed(Some(day), true), None);
    assert_eq!(roll_needed(None, false), None);
}

#[test]
fn schedule_times_follow_the_hour_minute_format() {
    let t = |hour, minute| Recurrence::Daily { time: TimeOfDay { hour, minute } };
    assert_eq!(Recurrence::parse("daily 9:05").unwrap(), t(9, 5));
    assert_eq!(Recurrence::parse("daily 09:5").unwrap(), t(9, 5));
    assert_eq!(Recurrence::parse("daily 23:59").unwrap(), t(23, 59));
    assert_eq!(Recurrence::parse("daily 24:00").unwrap_err(), RecurrenceError::TimeFormat);
    assert_eq!(Recurrence::parse("daily 12:60").unwrap_err(), RecurrenceError::TimeFormat);
    assert_eq!(Recurrence::parse("daily 12:00:00").unwrap_err(), RecurrenceError::TimeFormat);
    assert_eq!(Recurrence::parse("daily 123:00").unwrap_err(), RecurrenceError::TimeFormat);
    assert_eq!(Recurrence::parse("daily noon").unwrap_err(), RecurrenceError::TimeFormat);
}

#[test]
fn schedules_read_the_same_in_any_case_with_every_and_commas() {
    let daily = Recurrence::parse("daily 19:00").unwrap();
    assert_eq!(Recurrence::parse("DAILY 19:00").unwrap(), daily);
    assert_eq!(Recurrence::parse("everyday 19:00").unwrap(), daily);
    assert_eq!(Recurrence::parse("every daily 19:00").unwrap(), daily);
    let weekly = Recurrence::parse("weekly fri 20:00").unwrap();
    assert_eq!(Recurrence::parse("Weekly FRI 20:00").unwrap(), weekly);
    assert_eq!(Recurrence::parse("every weekly fri 20:00").unwrap(), weekly);
    assert_eq!(Recurrence::parse("weekly, fri, 20:00").unwrap(), weekly);
    let monthly = Recurrence::parse("monthly 15 19:30").unwrap();
    assert_eq!(Recurrence::parse("MONTHLY, 15, 19:30").unwrap(), monthly);
}

#[test]
fn an_accepted_template_name_is_accepted_as_itself() {
    let name = template_name("  Game-Night_2 ".to_string()).unwrap();
    assert_eq!(name, "game-night_2");
    assert_eq!(template_name(name.clone()).unwrap(), name);
}

#[test]
fn joined_choices_read_back_the_same() {
    let choices = parse_choices("Pizza,  Tacos ,sushi,,").unwrap();
    assert_eq!(choices, ["Pizza", "Tacos", "sushi"]);
    assert_eq!(parse_choices(&choices.join(", ")).unwrap(), choices);
    assert_eq!(parse_choices(&default_choices().join(", ")).unwrap(), default_choices());
}

#[test]
fn notification_keeps_first_mention_order() {
    let n = parse_notification(Some("<@&5> <@2>, <@1> <@2> <@&5>".to_string()))
        .unwrap()
        .unwrap();
    assert_eq!(n.user_ids, vec![2, 1]);
    assert_eq!(n.role_ids, vec![5]);
    assert_eq!(n.content, "<@2> <@1> <@&5>");
    assert!(parse_notification(Some("<@2> hello".to_string())).is_err());
    assert!(parse_notification(Some(" , ".to_string())).unwrap().is_none());
}

#[test]
fn long_voter_lists_stay_within_the_byte_limit() {
    let votes: Vec<Vote> = (0..300u64)
        .map(|i| Vote { user_id: 18_000_000_000_000_000_000 + i, display_name: None, choice: "x".to_string() })
        .collect();
    let value = choice_field_value("x", &votes);
    assert!(value.len() <= 1024);
    assert!(value.ends_with("\n…and more"));
    let kept = value.trim_end_matches("\n…and more");
    let lines: Vec<&str> = kept.split('\n').collect();
    assert!(lines.len() < votes.len());
    assert_eq!(lines[0], "<@18000000000000000000>");
    assert_eq!(lines[lines.len() - 1], format!("<@{}>", 18_000_000_000_000_000_000u64 + lines.len() as u64 - 1));
}
