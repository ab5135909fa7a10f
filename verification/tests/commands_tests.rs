use urinal_fish_bot::calendar::UtcTimestamp;
use urinal_fish_bot::commands::{
    autocomplete_suggestions, display_name_for_user, easter_disable_reply, help_text,
    is_allowed_channel, notification_text, parse_notification, parse_role_mention,
    parse_user_mention, poll_created_reply, rejection_error, rejection_reply,
    series_delete_reply, series_list_body, series_notification_summary, series_saved_reply,
    series_when_summary, NotificationError,
};
use urinal_fish_bot::models::{PollNotification, RecurringSeries};

#[test]
fn parses_notification_mentions() {
    let notification = parse_notification(Some("<@123> <@&456>".to_string()))
        .unwrap()
        .unwrap();

    assert_eq!(notification.content, "<@123> <@&456>");
    assert_eq!(notification.user_ids, [123]);
    assert_eq!(notification.role_ids, [456]);
}

#[test]
fn rejects_non_mention_notification_text() {
    let error = parse_notification(Some("@everyone hello".to_string()))
        .unwrap_err()
        .message();

    assert!(error.contains("user or role mentions"));
}

#[test]
fn summarizes_series_notifications() {
    let notification = PollNotification {
        content: "<@123> <@&456>".to_string(),
        user_ids: vec![123],
        role_ids: vec![456],
    };

    assert_eq!(
        series_notification_summary(Some(&notification)),
        "<@123> <@&456>"
    );
    assert_eq!(series_notification_summary(None), "none");
}

#[test]
fn summarizes_empty_series_when() {
    assert_eq!(series_when_summary("Friday 20:00"), "Friday 20:00");
    assert_eq!(series_when_summary("   "), "not set");
}

#[test]
fn notification_pings_each_mention_once() {
    let n = parse_notification(Some("<@!7>, <@7> <@&9>,<@&9> <@8>".to_string()))
        .unwrap()
        .unwrap();
    assert_eq!(n.user_ids, [7, 8]);
    assert_eq!(n.role_ids, [9]);
    assert_eq!(n.content, "<@7> <@8> <@&9>");
}

#[test]
fn empty_notification_is_none() {
    assert!(parse_notification(None).unwrap().is_none());
    assert!(parse_notification(Some("  ,  ".to_string())).unwrap().is_none());
}

#[test]
fn notification_errors_name_the_problem() {
    assert_eq!(
        parse_notification(Some("<@abc>".to_string())).unwrap_err(),
        NotificationError::NotAMention
    );
}

#[test]
fn mention_tokens_parse() {
    assert_eq!(parse_user_mention("<@123>"), Some(123));
    assert_eq!(parse_user_mention("<@!123>"), Some(123));
    assert_eq!(parse_user_mention("<@&123>"), None);
    assert_eq!(parse_user_mention("<@>"), None);
    assert_eq!(parse_role_mention("<@&456>"), Some(456));
    assert_eq!(parse_role_mention("<@456>"), None);
}

#[test]
fn notification_text_lists_users_then_roles() {
    assert_eq!(notification_text(&vec![1, 2], &vec![3]), "<@1> <@2> <@&3>");
    assert_eq!(notification_text(&vec![], &vec![]), "");
}

#[test]
fn blank_notification_summary_is_none() {
    let n = PollNotification { content: "  ".to_string(), user_ids: vec![], role_ids: vec![] };
    assert_eq!(series_notification_summary(Some(&n)), "none");
}

#[test]
fn display_name_prefers_global_name() {
    assert_eq!(display_name_for_user(Some("Global"), "user"), "Global");
    assert_eq!(display_name_for_user(None, "user"), "user");
}

#[test]
fn help_text_starts_with_title_and_ends_with_voting() {
    let help = help_text();
    assert!(help.starts_with("**Urinal Fish help**\n\n**Create a one-off poll**"));
    assert!(help.ends_with("Pressing a different button changes your vote."));
}

#[test]
fn channel_allow_list() {
    assert!(!is_allowed_channel(&vec![], 5));
    assert!(is_allowed_channel(&vec![4, 5], 5));
    assert!(!is_allowed_channel(&vec![4], 5));
}

#[test]
fn rejection_mentions_allowed_channels() {
    assert_eq!(rejection_reply(&vec![1, 2]), "Use this bot in <#1>, <#2>. I will ignore commands anywhere else.");
    assert_eq!(rejection_error(&vec![1]), "command used outside allowed channels: 1");
}

#[test]
fn suggestions_start_with_default_choices() {
    let history = vec!["Pizza, Sushi, No".to_string(), "yes, no, maybe".to_string()];
    assert_eq!(
        autocomplete_suggestions("", &history),
        ["yes, no, maybe", "Pizza, Sushi, No"]
    );
    assert_eq!(autocomplete_suggestions(" PIZ ", &history), ["Pizza, Sushi, No"]);
    assert!(autocomplete_suggestions("zzz", &history).is_empty());
}

#[test]
fn suggestions_stop_at_twenty_five() {
    let history: Vec<String> = (0..40).map(|i| format!("a{i}, b")).collect();
    assert_eq!(autocomplete_suggestions("", &history).len(), 25);
}

#[test]
fn series_replies() {
    assert_eq!(series_delete_reply(true, "abc"), "Stopped recurring series `abc`.");
    assert_eq!(series_delete_reply(false, "abc"), "I could not find an active recurring series named `abc`.");
    assert_eq!(easter_disable_reply(true), "Easter egg disabled.");
    assert_eq!(easter_disable_reply(false), "Easter egg is not configured.");
    assert_eq!(
        poll_created_reply(1, 2, 3),
        "Created event poll: https://discord.com/channels/1/2/3"
    );
    assert_eq!(
        series_saved_reply("Drinks", UtcTimestamp { secs: 100, nanos: 0 }),
        "Saved recurring event `Drinks`. First poll posts at <t:100:F>."
    );
}

#[test]
fn series_list_lines() {
    assert_eq!(series_list_body(&vec![]), "No recurring event series are active.");
    let s = RecurringSeries {
        id: "abcd1234".to_string(),
        title: "Drinks".to_string(),
        description: None,
        schedule: "weekly fri 20:00".to_string(),
        when: " ".to_string(),
        location: None,
        timezone: "Europe/Berlin".to_string(),
        choices: vec!["yes".to_string(), "no".to_string()],
        notification: None,
        channel_id: 1,
        created_by: 2,
        created_by_name: None,
        next_post_at: UtcTimestamp { secs: 5, nanos: 0 },
    };
    assert_eq!(
        series_list_body(&vec![s]),
        "`abcd1234`: Drinks | when: not set | next post <t:5:F> | choices: yes, no | notify: none"
    );
}

use urinal_fish_bot::commands::{
    easter_add_outcome, easter_delete_reply, easter_test_outcome, new_series, series_options,
    single_event, CommandInputError, EasterAddOutcome, EasterTestOutcome,
};
use urinal_fish_bot::models::EasterEggSettings;
use urinal_fish_bot::recurrence::RecurrenceError;

#[test]
fn single_event_builds_the_poll() {
    let ev = single_event(
        " Drinks ".to_string(),
        "Friday 20:00".to_string(),
        "yes, no",
        Some("Berlin".to_string()),
        Some("@everyone come".to_string()),
        Some("<@5>".to_string()),
        10,
        20,
        "Alex".to_string(),
    )
    .ok()
    .unwrap();
    assert_eq!(ev.poll.title, "Drinks");
    assert_eq!(ev.poll.when.as_deref(), Some("Friday 20:00"));
    assert_eq!(ev.poll.description.as_deref(), Some("@\u{200B}everyone come"));
    assert_eq!(ev.poll.choices, ["yes", "no"]);
    assert_eq!(ev.poll.channel_id, 10);
    assert_eq!(ev.poll.created_by_name, "Alex");
    assert_eq!(ev.notification.unwrap().user_ids, [5]);
}

fn single_error(title: &str, when: &str, choices: &str, notify: Option<&str>) -> String {
    match single_event(
        title.to_string(),
        when.to_string(),
        choices,
        None,
        None,
        notify.map(|n| n.to_string()),
        1,
        2,
        "x".to_string(),
    ) {
        Err(e) => e.message(),
        Ok(_) => panic!("accepted"),
    }
}

#[test]
fn single_event_reports_the_first_problem() {
    assert_eq!(single_error(" ", "", "yes", Some("x")), "title cannot be empty");
    assert_eq!(single_error("T", " ", "yes", Some("x")), "when cannot be empty");
    assert_eq!(single_error("T", "now", "yes", Some("x")), "provide at least two comma-separated choices");
    assert_eq!(
        single_error("T", "now", "yes,no", Some("x")),
        "notify can only contain user or role mentions, like @person or @friends"
    );
}

#[test]
fn recurring_options_and_first_post() {
    let options = series_options(
        "Drinks".to_string(),
        " Friday ".to_string(),
        "yes,no",
        None,
        None,
    )
    .ok()
    .unwrap();
    assert_eq!(options.when, "Friday");
    let now = UtcTimestamp { secs: 1_781_895_600, nanos: 0 };
    let series = new_series(options, "weekly fri 20:00".to_string(), "Europe/Berlin", 1, 2, "A".to_string(), now)
        .ok()
        .unwrap();
    assert_eq!(series.next_post_at, UtcTimestamp { secs: 1_782_496_800, nanos: 0 });
    assert_eq!(series.timezone, "Europe/Berlin");
    assert!(series.description.is_none());

    let options = series_options("D".to_string(), "F".to_string(), "a,b", None, None).ok().unwrap();
    match new_series(options, "sometimes".to_string(), "Europe/Berlin", 1, 2, "A".to_string(), now) {
        Err(e) => {
            assert_eq!(e.message(), "could not parse schedule 'sometimes'");
            assert!(matches!(
                e,
                CommandInputError::Schedule { error: RecurrenceError::UnrecognizedSchedule, .. }
            ));
        }
        Ok(_) => panic!("accepted"),
    }
}

fn settings(enabled: bool) -> EasterEggSettings {
    EasterEggSettings {
        enabled,
        target_user_id: 7,
        channel_id: 9,
        window_start_minute: 0,
        window_end_minute: 60,
        updated_by: 1,
    }
}

#[test]
fn easter_commands_decide() {
    assert!(matches!(easter_add_outcome(None, "m".to_string()), EasterAddOutcome::Reply(t) if t == "Use `/easter_set` first."));
    assert!(matches!(
        easter_add_outcome(Some(settings(false)), "m".to_string()),
        EasterAddOutcome::Reply(t) if t == "The easter egg is disabled. Use `/easter_set` first."
    ));
    assert!(matches!(easter_add_outcome(Some(settings(true)), " hi @here ".to_string()), EasterAddOutcome::Add(m) if m == "hi @\u{200B}here"));
    assert!(matches!(easter_add_outcome(Some(settings(true)), "  ".to_string()), EasterAddOutcome::Invalid(_)));

    assert!(matches!(easter_test_outcome(None, &vec![]), EasterTestOutcome::Reply(t) if t == "Use `/easter_set` first."));
    assert!(matches!(
        easter_test_outcome(Some(settings(true)), &vec![]),
        EasterTestOutcome::Reply(t) if t == "No easter egg messages are configured. Use `/easter_add_message` first."
    ));
    assert!(matches!(
        easter_test_outcome(Some(settings(true)), &vec!["Boo".to_string()]),
        EasterTestOutcome::Send { content, target_user_id: 7 } if content == "<@7> Boo"
    ));
    assert_eq!(easter_delete_reply(true, "ab12"), "Deleted easter egg message `ab12`.");
    assert_eq!(easter_delete_reply(false, "ab12"), "I could not find an easter egg message with ID `ab12`.");
}

use urinal_fish_bot::commands::{easter_set_outcome, easter_status_reply, format_time, EasterSetError};
use urinal_fish_bot::models::EasterEggMessage;

#[test]
fn event_places_are_cleaned() {
    let ev = single_event(
        "T".to_string(),
        "now".to_string(),
        "a,b",
        Some("  @here Berlin ".to_string()),
        None,
        None,
        1,
        2,
        "x".to_string(),
    )
    .ok()
    .unwrap();
    assert_eq!(ev.poll.location.as_deref(), Some("@\u{200B}here Berlin"));
    match series_options("T".to_string(), "now".to_string(), "a,b", Some(" ".to_string()), None) {
        Err(e) => assert_eq!(e.message(), "location cannot be empty"),
        Ok(_) => panic!("accepted"),
    }
}

#[test]
fn easter_set_checks_its_window() {
    let (s, m, reply) = easter_set_outcome(7, 9, "09:00", "22:30", " Boo @everyone ".to_string(), 1)
        .ok()
        .unwrap();
    assert!(s.enabled);
    assert_eq!((s.target_user_id, s.channel_id, s.updated_by), (7, 9, 1));
    assert_eq!((s.window_start_minute, s.window_end_minute), (540, 1350));
    assert_eq!(m, "Boo @\u{200B}everyone");
    assert_eq!(
        reply,
        "Easter egg enabled for <@7> in <#9>. Daily roll is at 04:00; on an 11, I will post between 09:00 and 22:30."
    );
    let err = |a: &str, b: &str, m: &str| easter_set_outcome(7, 9, a, b, m.to_string(), 1).unwrap_err();
    assert!(matches!(err("9am", "22:00", "x"), EasterSetError::StartTime));
    assert!(matches!(err("09:00", "late", "x"), EasterSetError::EndTime));
    assert!(matches!(err("03:59", "22:00", "x"), EasterSetError::StartTooEarly));
    assert!(matches!(err("10:00", "09:59", "x"), EasterSetError::EndBeforeStart));
    assert!(matches!(err("04:00", "04:00", " "), EasterSetError::Message(_)));
    assert_eq!(err("03:00", "22:00", "x").message(), "start_time must be 04:00 or later");
    assert_eq!(format_time(65), "01:05");
}

#[test]
fn easter_status_lists_five_messages() {
    assert_eq!(easter_status_reply(None, &vec![]), "Easter egg is not configured.");
    let s = settings(true);
    assert_eq!(
        easter_status_reply(Some(s), &vec![]),
        "Easter egg is enabled.\nTarget: <@7>\nChannel: <#9>\nWindow: 00:00-01:00\nMessages: 0\nNo messages configured."
    );
    let msgs: Vec<EasterEggMessage> = (0..6)
        .map(|i| EasterEggMessage { id: format!("id{i}"), message: format!("m{i}") })
        .collect();
    let reply = easter_status_reply(Some(settings(false)), &msgs);
    assert!(reply.starts_with("Easter egg is disabled.\nTarget: <@7>\nChannel: <#9>\nWindow: 00:00-01:00\nMessages: 6\n- `id0`: m0\n"));
    assert!(reply.ends_with("- `id4`: m4"));
}

#[test]
fn notification_tokens_decide_the_outcome() {
    assert!(parse_notification(Some(" , ,".to_string())).unwrap().is_none());
    assert!(parse_notification(Some("<@1>, hi".to_string())).is_err());
    let n = parse_notification(Some("<@&4>,<@2>,<@&4>".to_string())).unwrap().unwrap();
    assert_eq!(n.user_ids, [2]);
    assert_eq!(n.role_ids, [4]);
}
