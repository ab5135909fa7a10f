use urinal_fish_bot::validation::{
    clean_text, optional_description, optional_when, poll_title, template_name, ValidationError,
};

#[test]
fn rejects_invalid_template_name() {
    let error = template_name("bad name!".to_string()).unwrap_err().message();

    assert!(error.contains("letters"));
}

#[test]
fn neutralizes_mentions() {
    let value = poll_title("@everyone Friday".to_string()).unwrap();

    assert_ne!(value, "@everyone Friday");
    assert!(value.contains("@\u{200B}everyone"));
}

#[test]
fn rejects_overlong_title() {
    let error = poll_title("x".repeat(101)).unwrap_err().message();

    assert!(error.contains("100"));
}

#[test]
fn title_of_exactly_one_hundred_characters_is_accepted() {
    assert_eq!(poll_title("é".repeat(100)).unwrap(), "é".repeat(100));
}

#[test]
fn clean_text_trims_and_reports_each_error() {
    assert_eq!(clean_text("  hi \n".to_string(), "field", 5).unwrap(), "hi");
    let empty = clean_text(" \t ".to_string(), "field", 5).unwrap_err();
    assert!(matches!(empty, ValidationError::Empty { .. }));
    assert_eq!(empty.message(), "field cannot be empty");
    let control = clean_text("a\u{7}b".to_string(), "field", 5).unwrap_err();
    assert_eq!(control.message(), "field contains unsupported control characters");
    assert_eq!(clean_text("a\nb\tc".to_string(), "field", 5).unwrap(), "a\nb\tc");
}

#[test]
fn optional_fields_pass_none_through() {
    assert!(optional_description(None).unwrap().is_none());
    assert!(optional_when(None).unwrap().is_none());
    assert_eq!(optional_when(Some(" Friday 20:00 ".to_string())).unwrap().unwrap(), "Friday 20:00");
    let error = optional_description(Some("x".repeat(801))).unwrap_err();
    assert_eq!(error.message(), "description must be 800 characters or less");
}

#[test]
fn template_names_are_lowercased_and_limited() {
    assert_eq!(template_name("  Game-Night_2 ".to_string()).unwrap(), "game-night_2");
    let empty = template_name("   ".to_string()).unwrap_err();
    assert_eq!(empty.message(), "template name cannot be empty");
    let long = template_name("a".repeat(33)).unwrap_err();
    assert_eq!(long.message(), "template name must be 32 characters or less");
    // 17 two-byte characters are 34 bytes.
    let bytes = template_name("é".repeat(17)).unwrap_err();
    assert!(matches!(bytes, ValidationError::TemplateNameTooLong));
}

#[test]
fn neutralised_mentions_restore_to_the_trimmed_text() {
    let cleaned = clean_text("  @everyone meet @ 8  ".to_string(), "field", 100).unwrap();
    assert!(cleaned.matches('@').count() == 2);
    assert_eq!(cleaned.replace("@\u{200B}", "@"), "@everyone meet @ 8");
}
