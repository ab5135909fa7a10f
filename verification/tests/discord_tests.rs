use urinal_fish_bot::calendar::UtcTimestamp;
use urinal_fish_bot::components::{parse_vote_id, VoteTarget};
use urinal_fish_bot::discord::{
    button_style, choice_field_name, choice_field_value, embed_text, filled_text,
    format_discord_time, render_poll_buttons, render_poll_embed, render_poll_message,
    row_break_name, row_break_value, user_mention, vote_count, ButtonStyle, POLL_COLOR,
};
use urinal_fish_bot::models::{Poll, PollNotification, Vote};

fn sample_poll(location: Option<&str>, choices: &[&str]) -> Poll {
    Poll {
        id: "f531adfd".to_string(),
        title: "Tal-Aħħar".to_string(),
        description: Some("issa".to_string()),
        when: Some("Today at 22:30".to_string()),
        location: location.map(|l| l.to_string()),
        choices: choices.iter().map(|c| c.to_string()).collect(),
        channel_id: 1,
        message_id: None,
        recurring_id: None,
        created_by: 42,
        created_by_name: Some("EventCreator".to_string()),
        created_at: UtcTimestamp { secs: 1_781_735_400, nanos: 0 },
    }
}

fn sample_votes() -> Vec<Vote> {
    vec![
        Vote { user_id: 1, display_name: Some("FriendOne".to_string()), choice: "caru tond".to_string() },
        Vote { user_id: 2, display_name: Some("EventCreator".to_string()), choice: "caru tond".to_string() },
        Vote { user_id: 3, display_name: Some("FriendTwo".to_string()), choice: "bajd u patata".to_string() },
    ]
}

#[test]
fn renders_clickable_mentions_for_poll_people() {
    let poll = sample_poll(Some("Berlin"), &["caru tond", "bajd u patata", "flat"]);
    let votes = sample_votes();

    assert_eq!(user_mention(poll.created_by), "<@42>");
    assert_eq!(choice_field_name("caru tond", &votes), "caru tond - 2 votes");
    assert_eq!(choice_field_name("bajd u patata", &votes), "bajd u patata - 1 vote");
    assert_eq!(choice_field_name("flat", &votes), "flat - 0 votes");
    assert_eq!(choice_field_value("caru tond", &votes), "<@1>\n<@2>");
    assert_eq!(choice_field_value("bajd u patata", &votes), "<@3>");
    assert_eq!(choice_field_value("flat", &votes), "_No one yet_");
}

#[test]
fn skips_where_when_location_is_not_set() {
    assert_eq!(filled_text(None), None);
    assert_eq!(filled_text(Some("   ")), None);
    assert_eq!(filled_text(Some("Berlin")), Some("Berlin"));
}

#[test]
fn embed_text_replaces_backticks_and_breaks() {
    assert_eq!(embed_text("  `a`\nb\tc\r "), "'a' b c");
}

#[test]
fn vote_count_words() {
    assert_eq!(vote_count(0), "0 votes");
    assert_eq!(vote_count(1), "1 vote");
    assert_eq!(vote_count(7), "7 votes");
}

#[test]
fn row_break_is_zero_width_space() {
    assert_eq!(row_break_name(), "\u{200B}");
    assert_eq!(row_break_value(), "\u{200B}");
}

#[test]
fn discord_time_uses_full_format() {
    assert_eq!(format_discord_time(UtcTimestamp { secs: 1_781_735_400, nanos: 0 }), "<t:1781735400:F>");
}

#[test]
fn button_styles_follow_choice_words() {
    assert_eq!(button_style(" YES "), ButtonStyle::Success);
    assert_eq!(button_style("going"), ButtonStyle::Success);
    assert_eq!(button_style("Not Going"), ButtonStyle::Danger);
    assert_eq!(button_style("n"), ButtonStyle::Danger);
    assert_eq!(button_style("unsure"), ButtonStyle::Secondary);
    assert_eq!(button_style("pizza"), ButtonStyle::Primary);
}

#[test]
fn long_voter_lists_are_cut_with_more_marker() {
    let votes: Vec<Vote> = (0..200u64)
        .map(|i| Vote { user_id: 1_000_000_000_000_000_000 + i, display_name: None, choice: "x".to_string() })
        .collect();
    let value = choice_field_value("x", &votes);
    assert!(value.ends_with("\n…and more"));
    assert!(value.chars().count() <= 1024);
    let kept = value.trim_end_matches("\n…and more");
    assert!(kept.len() <= 1000);
    assert_eq!(&kept[..45], "<@1000000000000000000>\n<@1000000000000000001>");
}

#[test]
fn buttons_come_in_rows_of_five() {
    let choices: Vec<String> = (0..7).map(|i| format!("c{i}")).collect();
    let refs: Vec<&str> = choices.iter().map(|c| c.as_str()).collect();
    let poll = sample_poll(None, &refs);
    let rows = render_poll_buttons(&poll);
    assert_eq!(rows.len(), 2);
    assert_eq!(rows[0].len(), 5);
    assert_eq!(rows[1].len(), 2);
    assert_eq!(rows[1][1].custom_id, "vote:f531adfd:6");
    assert_eq!(rows[1][1].label, "c6");
    match parse_vote_id(&rows[1][0].custom_id) {
        VoteTarget::Choice { poll_id, choice_index } => {
            assert_eq!(poll_id, "f531adfd");
            assert_eq!(choice_index, 5);
        }
        other => panic!("unexpected {other:?}"),
    }
}

#[test]
fn embed_lays_out_where_and_creator() {
    let poll = sample_poll(Some("Berlin"), &["caru tond", "bajd u patata", "flat"]);
    let embed = render_poll_embed(&poll, &sample_votes());
    assert_eq!(embed.color, POLL_COLOR);
    assert_eq!(embed.title, "📅 TAL-AĦĦAR");
    assert_eq!(embed.description.as_deref(), Some("issa"));
    let names: Vec<&str> = embed.fields.iter().map(|f| f.name.as_str()).collect();
    assert_eq!(
        names,
        ["🗓 When", "📍 Where", "👤 Creator", "caru tond - 2 votes", "bajd u patata - 1 vote", "flat - 0 votes"]
    );
    assert_eq!(embed.fields[1].value, "Berlin");
    assert_eq!(embed.fields[2].value, "<@42>");
    assert!(embed.footer.starts_with("Event ID: f531adfd • Created on: "));
    assert_eq!(embed.footer, "Event ID: f531adfd • Created on: 17 June 2026 at 22:30");

    let no_place = sample_poll(Some("  "), &["a", "b"]);
    let embed = render_poll_embed(&no_place, &vec![]);
    let names: Vec<&str> = embed.fields.iter().map(|f| f.name.as_str()).collect();
    assert_eq!(names, ["🗓 When", "👤 Creator", "\u{200B}", "a - 0 votes", "b - 0 votes"]);
    assert!(!embed.fields[2].inline);
}

#[test]
fn message_carries_notification() {
    let poll = sample_poll(None, &["yes", "no"]);
    let n = PollNotification { content: "<@1>".to_string(), user_ids: vec![1], role_ids: vec![] };
    let m = render_poll_message(&poll, &vec![], Some(&n));
    let got = m.notification.unwrap();
    assert_eq!(got.content, "<@1>");
    assert_eq!(got.user_ids, [1]);
    assert!(render_poll_message(&poll, &vec![], None).notification.is_none());
    assert_eq!(m.rows[0][0].style, ButtonStyle::Success);
    assert_eq!(m.rows[0][1].style, ButtonStyle::Danger);
}
