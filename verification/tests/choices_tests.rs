use urinal_fish_bot::choices::{default_choices, parse_choices, ChoicesError};
use urinal_fish_bot::validation::ValidationError;

#[test]
fn parses_comma_separated_choices() {
    let choices = parse_choices("yes, no, maybe").unwrap();

    assert_eq!(choices, ["yes", "no", "maybe"]);
}

#[test]
fn rejects_duplicate_choices_case_insensitively() {
    let error = parse_choices("yes, no, YES").unwrap_err().message();

    assert!(error.contains("unique"));
}

#[test]
fn rejects_less_than_two_choices() {
    let error = parse_choices("yes").unwrap_err().message();

    assert!(error.contains("at least two"));
}

#[test]
fn default_choices_are_yes_no_maybe() {
    assert_eq!(default_choices(), ["yes", "no", "maybe"]);
}

#[test]
fn skips_blank_pieces_and_trims_choices() {
    let choices = parse_choices(" pizza ,, sushi ,  ").unwrap();
    assert_eq!(choices, ["pizza", "sushi"]);
}

#[test]
fn rejects_more_than_twenty_five_choices() {
    let many: Vec<String> = (0..26).map(|i| format!("c{i}")).collect();
    let error = parse_choices(&many.join(",")).unwrap_err();
    assert!(matches!(error, ChoicesError::TooMany));
    assert_eq!(error.message(), "Discord buttons support at most 25 choices");
}

#[test]
fn accepts_exactly_twenty_five_choices() {
    let many: Vec<String> = (0..25).map(|i| format!("c{i}")).collect();
    assert_eq!(parse_choices(&many.join(",")).unwrap().len(), 25);
}

#[test]
fn rejects_overlong_choice_with_its_field_name() {
    let long = "x".repeat(61);
    let error = parse_choices(&format!("yes,{long}")).unwrap_err();
    assert!(matches!(error, ChoicesError::Invalid(ValidationError::TooLong { .. })));
    assert_eq!(error.message(), "choice must be 60 characters or less");
}

#[test]
fn neutralizes_mentions_in_choices() {
    let choices = parse_choices("@everyone,no").unwrap();
    assert_eq!(choices[0], "@\u{200B}everyone");
}

#[test]
fn duplicate_check_uses_unicode_lowercase() {
    let error = parse_choices("ÄPFEL, äpfel").unwrap_err();
    assert!(matches!(error, ChoicesError::NotUnique));
}
