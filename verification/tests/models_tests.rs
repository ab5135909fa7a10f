use urinal_fish_bot::calendar::UtcTimestamp;
use urinal_fish_bot::models::{
    short_id, EasterEggMessage, NewPoll, NewRecurringSeries, Poll, RecurringSeries,
};
use urinal_fish_bot::scheduler::{series_poll, series_when_text};

fn is_short_id(id: &str) -> bool {
    id.len() == 8 && id.chars().all(|c| c.is_ascii_digit() || ('a'..='f').contains(&c))
}

fn new_poll() -> NewPoll {
    NewPoll {
        title: "Drinks".to_string(),
        description: None,
        when: Some("Friday".to_string()),
        location: None,
        choices: vec!["yes".to_string(), "no".to_string()],
        channel_id: 1,
        recurring_id: None,
        created_by: 2,
        created_by_name: "Alex".to_string(),
    }
}

fn new_series(created_by_name: Option<&str>, when: &str) -> RecurringSeries {
    let mut s = RecurringSeries::new(NewRecurringSeries {
        title: "Drinks".to_string(),
        description: Some("d".to_string()),
        schedule: "weekly fri 20:00".to_string(),
        when: when.to_string(),
        location: Some("Berlin".to_string()),
        timezone: "Europe/Berlin".to_string(),
        choices: vec!["yes".to_string(), "no".to_string()],
        notification: None,
        channel_id: 9,
        created_by: 42,
        created_by_name: "Alex".to_string(),
        next_post_at: UtcTimestamp { secs: 1_781_892_000, nanos: 0 },
    });
    s.created_by_name = created_by_name.map(|n| n.to_string());
    s
}

#[test]
fn ids_are_eight_hex_digits() {
    for _ in 0..20 {
        assert!(is_short_id(&short_id()));
    }
    assert_ne!(short_id(), short_id());
}

#[test]
fn new_records_take_their_input() {
    let poll = Poll::new(new_poll());
    assert!(is_short_id(&poll.id));
    assert_eq!(poll.title, "Drinks");
    assert_eq!(poll.message_id, None);
    assert_eq!(poll.created_by_name.as_deref(), Some("Alex"));
    let at = Poll::from_parts(new_poll(), "abc".to_string(), UtcTimestamp { secs: 3, nanos: 4 });
    assert_eq!(at.id, "abc");
    assert_eq!(at.created_at, UtcTimestamp { secs: 3, nanos: 4 });

    let series = new_series(Some("Alex"), "Friday 20:00");
    assert!(is_short_id(&series.id));
    assert_eq!(series.timezone, "Europe/Berlin");

    let m = EasterEggMessage::new("Boo".to_string());
    assert!(is_short_id(&m.id));
    assert_eq!(m.message, "Boo");
}

#[test]
fn due_series_posts_its_poll() {
    let series = new_series(None, "  Friday 20:00 ");
    let poll = series_poll(&series);
    assert_eq!(poll.title, "Drinks");
    assert_eq!(poll.when.as_deref(), Some("Friday 20:00"));
    assert_eq!(poll.location.as_deref(), Some("Berlin"));
    assert_eq!(poll.recurring_id.as_deref(), Some(series.id.as_str()));
    assert_eq!(poll.created_by_name, "42");
    assert_eq!(series_poll(&new_series(Some("Alex"), "x")).created_by_name, "Alex");
}

#[test]
fn series_without_when_shows_post_time() {
    let at = UtcTimestamp { secs: 1_781_892_000, nanos: 0 };
    assert_eq!(series_when_text("   ", at), "Friday 18:00");
    assert_eq!(series_when_text(" Sat ", at), "Sat");
}
