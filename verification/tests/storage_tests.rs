use urinal_fish_bot::config::{parse_channel_ids, scheduler_interval_seconds, ConfigError};
use urinal_fish_bot::storage::{
    choice_display_text, normalize_choices, to_i64, to_u16, to_u64, StorageError,
};

#[test]
fn normalizes_choices_case_insensitively() {
    let normalized = normalize_choices(&[" Yes ".into(), "NO".into()].to_vec());

    assert_eq!(normalized, "yes\nno");
}

#[test]
fn ids_round_trip_through_sqlite_integers() {
    assert_eq!(to_i64(42), Ok(42));
    assert_eq!(to_u64(to_i64(i64::MAX as u64).unwrap()), Ok(i64::MAX as u64));
    assert_eq!(to_i64(u64::MAX), Err(StorageError::IdTooLarge));
    assert_eq!(to_u64(-1), Err(StorageError::NegativeId));
    assert_eq!(to_u16(1439), Ok(1439));
    assert_eq!(to_u16(70_000), Err(StorageError::MinuteOutOfRange));
    assert_eq!(StorageError::NegativeId.message(), "stored Discord ID was negative");
}

#[test]
fn choice_sets_display_comma_separated() {
    assert_eq!(
        choice_display_text(&vec!["Pizza".to_string(), "Sushi".to_string(), "No".to_string()]),
        "Pizza, Sushi, No"
    );
}

#[test]
fn channel_ids_are_read() {
    assert_eq!(parse_channel_ids(" 1, 2 ,,3 ").unwrap(), [1, 2, 3]);
    match parse_channel_ids("1, x2") {
        Err(ConfigError::InvalidChannelId { value }) => assert_eq!(value, "x2"),
        other => panic!("unexpected {other:?}"),
    }
    assert!(matches!(parse_channel_ids(" , "), Err(ConfigError::NoChannelIds)));
    assert_eq!(
        ConfigError::NoChannelIds.message(),
        "DISCORD_CHANNEL_IDS must contain at least one channel ID"
    );
}

#[test]
fn scheduler_interval_defaults_to_sixty() {
    assert_eq!(scheduler_interval_seconds(None), 60);
    assert_eq!(scheduler_interval_seconds(Some("15")), 15);
    assert_eq!(scheduler_interval_seconds(Some("soon")), 60);
}

use urinal_fish_bot::calendar::UtcTimestamp;
use urinal_fish_bot::config::Config;
use urinal_fish_bot::models::{EasterEggSettings, Poll, PollNotification, RecurringSeries};
use urinal_fish_bot::storage::{
    choice_history_pattern, choice_history_row, poll_from_row, poll_row, series_from_row,
    series_row, settings_from_row, settings_row, taunt_from_row, timestamp_text, vote_from_row,
    RowError,
};

fn sample_poll() -> Poll {
    Poll {
        id: "f531adfd".to_string(),
        title: "Drinks".to_string(),
        description: None,
        when: Some("Friday \"20:00\"".to_string()),
        location: Some("Berlin".to_string()),
        choices: vec!["yes".to_string(), "no, \"really\"".to_string()],
        channel_id: 1,
        message_id: Some(77),
        recurring_id: None,
        created_by: 42,
        created_by_name: Some("Alex".to_string()),
        created_at: UtcTimestamp { secs: 1_781_735_400, nanos: 5_000_000 },
    }
}

fn sample_series(notification: Option<PollNotification>) -> RecurringSeries {
    RecurringSeries {
        id: "abcd1234".to_string(),
        title: "Drinks".to_string(),
        description: None,
        schedule: "weekly fri 20:00".to_string(),
        when: "Friday 20:00".to_string(),
        location: None,
        timezone: "Europe/Berlin".to_string(),
        choices: vec!["yes".to_string(), "no".to_string()],
        notification,
        channel_id: 9,
        created_by: 2,
        created_by_name: Some("Alex".to_string()),
        next_post_at: UtcTimestamp { secs: 1_781_805_600, nanos: 0 },
    }
}

#[test]
fn timestamps_are_written_as_rfc3339() {
    assert_eq!(timestamp_text(UtcTimestamp { secs: 1_781_735_400, nanos: 0 }), "2026-06-17T22:30:00+00:00");
}

#[test]
fn polls_read_back_as_stored() {
    let poll = sample_poll();
    let row = poll_row(&poll).unwrap();
    assert_eq!(row.channel_id, 1);
    assert_eq!(row.message_id, Some(77));
    assert_eq!(row.created_at, "2026-06-17T22:30:00.005+00:00");
    let back = poll_from_row(row).unwrap();
    assert_eq!(back.id, poll.id);
    assert_eq!(back.when, poll.when);
    assert_eq!(back.choices, poll.choices);
    assert_eq!(back.message_id, poll.message_id);
    assert_eq!(back.created_by_name, poll.created_by_name);
    assert_eq!(back.created_at, poll.created_at);
}

#[test]
fn poll_rows_refuse_bad_values() {
    let mut big = sample_poll();
    big.created_by = u64::MAX;
    assert_eq!(poll_row(&big).unwrap_err(), StorageError::IdTooLarge);

    let mut row = poll_row(&sample_poll()).unwrap();
    row.choices_json = "not json".to_string();
    assert!(matches!(poll_from_row(row), Err(RowError::Json(_))));

    let mut row = poll_row(&sample_poll()).unwrap();
    row.message_id = Some(-3);
    assert!(matches!(poll_from_row(row), Err(RowError::Value(StorageError::NegativeId))));

    let mut row = poll_row(&sample_poll()).unwrap();
    row.created_at = "yesterday".to_string();
    assert!(matches!(poll_from_row(row), Err(RowError::Timestamp(_))));
}

#[test]
fn series_read_back_as_stored() {
    let n = PollNotification { content: "<@1> <@&2>".to_string(), user_ids: vec![1], role_ids: vec![2] };
    let series = sample_series(Some(n));
    let row = series_row(&series).unwrap();
    assert_eq!(row.notification_user_ids_json, "[1]");
    assert_eq!(row.notification_role_ids_json, "[2]");
    let back = series_from_row(row).unwrap();
    let got = back.notification.unwrap();
    assert_eq!(got.content, "<@1> <@&2>");
    assert_eq!(got.user_ids, [1]);
    assert_eq!(got.role_ids, [2]);
    assert_eq!(back.timezone, "Europe/Berlin");
    assert_eq!(back.next_post_at, series.next_post_at);

    let plain = series_row(&sample_series(None)).unwrap();
    assert_eq!(plain.notification_text, None);
    assert_eq!(plain.notification_user_ids_json, "[]");
    assert!(series_from_row(plain).unwrap().notification.is_none());
}

#[test]
fn unknown_stored_zone_reads_as_utc() {
    let mut row = series_row(&sample_series(None)).unwrap();
    row.timezone = "Nowhere/Special".to_string();
    assert_eq!(series_from_row(row).unwrap().timezone, "UTC");
}

#[test]
fn settings_read_back_as_stored() {
    let s = EasterEggSettings {
        enabled: true,
        target_user_id: 7,
        channel_id: 9,
        window_start_minute: 540,
        window_end_minute: 1320,
        updated_by: 3,
    };
    let row = settings_row(&s).unwrap();
    let back = settings_from_row(&row).unwrap();
    assert_eq!(back.window_end_minute, 1320);
    assert_eq!(back.target_user_id, 7);
    let mut bad = row;
    bad.window_start_minute = -1;
    assert_eq!(settings_from_row(&bad).unwrap_err(), StorageError::MinuteOutOfRange);
}

#[test]
fn vote_and_taunt_rows() {
    assert_eq!(vote_from_row(5, None, "yes".to_string()).unwrap().user_id, 5);
    assert_eq!(vote_from_row(-5, None, "yes".to_string()).unwrap_err(), StorageError::NegativeId);
    let t = taunt_from_row("2026-06-18".to_string(), 7, 9, "hi".to_string()).unwrap();
    assert_eq!((t.target_user_id, t.channel_id), (7, 9));
    assert_eq!(taunt_from_row("d".to_string(), 7, -9, "hi".to_string()).unwrap_err(), StorageError::NegativeId);
}

#[test]
fn choice_history_keys() {
    assert_eq!(choice_history_pattern("  PIZ "), "%piz%");
    let row = choice_history_row(&vec!["Pizza".to_string(), " Sushi ".to_string()]);
    assert_eq!(row.normalized, "pizza\nsushi");
    assert_eq!(row.choices_json, "[\"Pizza\",\" Sushi \"]");
    assert_eq!(row.display_text, "Pizza,  Sushi ");
}

fn some(s: &str) -> Option<String> {
    Some(s.to_string())
}

#[test]
fn configuration_is_read_in_order() {
    let c = Config::from_values(some("t"), some("12"), some("1, 2"), None, None, None, None).unwrap();
    assert_eq!(c.guild_id, 12);
    assert_eq!(c.channel_ids, [1, 2]);
    assert_eq!(c.database_path, "data/bot.db");
    assert_eq!(c.default_timezone, "Europe/Berlin");
    assert_eq!(c.scheduler_interval_seconds, 60);

    let c = Config::from_values(some("t"), some("12"), None, some("3"), some("/x.db"), some("UTC"), some("5")).unwrap();
    assert_eq!(c.channel_ids, [3]);
    assert_eq!(c.database_path, "/x.db");
    assert_eq!(c.scheduler_interval_seconds, 5);

    let err = |r: Result<Config, ConfigError>| r.unwrap_err().message();
    assert_eq!(err(Config::from_values(None, some("12"), some("1"), None, None, None, None)), "DISCORD_TOKEN is required");
    assert_eq!(err(Config::from_values(some("t"), some("x"), some("1"), None, None, None, None)), "DISCORD_GUILD_ID is required");
    assert_eq!(err(Config::from_values(some("t"), some("1"), None, None, None, None, None)), "DISCORD_CHANNEL_IDS or DISCORD_CHANNEL_ID is required");
    assert_eq!(err(Config::from_values(some("t"), some("1"), some("1,x"), None, None, None, None)), "invalid Discord channel ID 'x'");
    assert_eq!(err(Config::from_values(some("t"), some("1"), some(","), some("4"), None, None, None)), "DISCORD_CHANNEL_IDS must contain at least one channel ID");
    assert_eq!(err(Config::from_values(some("t"), some("1"), some("1"), None, None, some("Mars/Base"), None)), "DEFAULT_TIMEZONE must be an IANA timezone like Europe/Berlin");
}
