use urinal_fish_bot::components::{
    parse_vote_id, plain_text, user_choice, vote_decision, vote_feedback, voter_display_name,
    VoteDecision, VoteTarget,
};
use urinal_fish_bot::models::Vote;

fn vote(user_id: u64, choice: &str) -> Vote {
    Vote { user_id, display_name: None, choice: choice.to_string() }
}

#[test]
fn formats_vote_feedback() {
    assert_eq!(vote_feedback(None, "iva"), "You chose \"iva\".");
    assert_eq!(
        vote_feedback(Some("iva"), "le"),
        "Changed your choice from \"iva\" to \"le\"."
    );
    assert_eq!(
        vote_feedback(Some("iva"), "iva"),
        "You already chose \"iva\"."
    );
}

#[test]
fn neutralizes_choice_markdown_in_feedback() {
    assert_eq!(
        vote_feedback(None, "@everyone `yes`"),
        "You chose \"everyone yes\"."
    );
}

#[test]
fn plain_text_drops_markup_and_flattens_lines() {
    assert_eq!(plain_text(" *a*_b_~c~|d|<e>\n\tf "), "abcde  f");
    assert_eq!(plain_text(""), "");
}

#[test]
fn user_choice_finds_first_vote_of_user() {
    let votes = vec![vote(1, "yes"), vote(2, "no"), vote(1, "maybe")];
    assert_eq!(user_choice(&votes, 1), Some("yes"));
    assert_eq!(user_choice(&votes, 2), Some("no"));
    assert_eq!(user_choice(&votes, 3), None);
}

#[test]
fn vote_ids_read_back() {
    match parse_vote_id("vote:f531adfd:12") {
        VoteTarget::Choice { poll_id, choice_index } => {
            assert_eq!(poll_id, "f531adfd");
            assert_eq!(choice_index, 12);
        }
        other => panic!("unexpected {other:?}"),
    }
    assert!(matches!(parse_vote_id("poll:x:1"), VoteTarget::NotAVote));
    assert!(matches!(parse_vote_id("vote:abc"), VoteTarget::NotAVote));
    assert!(matches!(parse_vote_id("vote"), VoteTarget::NotAVote));
    assert!(matches!(parse_vote_id("vote:abc:x1"), VoteTarget::InvalidIndex));
    assert!(matches!(parse_vote_id("vote:abc:"), VoteTarget::InvalidIndex));
}

#[test]
fn vote_decisions() {
    let choices = vec!["yes".to_string(), "no".to_string()];
    let votes = vec![vote(1, "yes")];
    assert!(matches!(vote_decision(&choices, &votes, 1, 2), VoteDecision::ChoiceGone));
    match vote_decision(&choices, &votes, 1, 0) {
        VoteDecision::AlreadyChosen { feedback } => {
            assert_eq!(feedback, "You already chose \"yes\".")
        }
        other => panic!("unexpected {other:?}"),
    }
    match vote_decision(&choices, &votes, 1, 1) {
        VoteDecision::Record { choice, feedback } => {
            assert_eq!(choice, "no");
            assert_eq!(feedback, "Changed your choice from \"yes\" to \"no\".");
        }
        other => panic!("unexpected {other:?}"),
    }
    match vote_decision(&choices, &votes, 2, 1) {
        VoteDecision::Record { choice, feedback } => {
            assert_eq!(choice, "no");
            assert_eq!(feedback, "You chose \"no\".");
        }
        other => panic!("unexpected {other:?}"),
    }
}

#[test]
fn voter_name_prefers_nick_then_global_name() {
    assert_eq!(voter_display_name(Some("Nick"), Some("Global"), "user"), "Nick");
    assert_eq!(voter_display_name(None, Some("Global"), "user"), "Global");
    assert_eq!(voter_display_name(None, None, "user"), "user");
}
