use task_tracker::{parse_priority, Priority};

#[test]
fn numeric_strings_map_in_order() {
    assert_eq!(parse_priority(Some("1".to_string())), Some(Priority::Urgent));
    assert_eq!(parse_priority(Some("2".to_string())), Some(Priority::High));
    assert_eq!(parse_priority(Some("3".to_string())), Some(Priority::Medium));
    assert_eq!(parse_priority(Some("4".to_string())), Some(Priority::Low));
}

#[test]
fn out_of_range_and_junk_yield_none() {
    assert_eq!(parse_priority(Some("0".to_string())), None);
    assert_eq!(parse_priority(Some("5".to_string())), None);
    assert_eq!(parse_priority(Some("256".to_string())), None);
    assert_eq!(parse_priority(Some("abc".to_string())), None);
    assert_eq!(parse_priority(Some("".to_string())), None);
    assert_eq!(parse_priority(Some(" 1".to_string())), None);
    assert_eq!(parse_priority(Some("-1".to_string())), None);
    assert_eq!(parse_priority(None), None);
}

#[test]
fn numeric_text_is_read_as_u8_text() {
    // leading zeros and an explicit plus sign are accepted, as `u8` text
    assert_eq!(parse_priority(Some("01".to_string())), Some(Priority::Urgent));
    assert_eq!(parse_priority(Some("+4".to_string())), Some(Priority::Low));
    // a sign alone is not a number
    assert_eq!(parse_priority(Some("+".to_string())), None);
}

#[test]
fn from_input_defaults_to_medium() {
    assert_eq!(Priority::from_input(Some("2".to_string())), Priority::High);
    assert_eq!(Priority::from_input(Some("9".to_string())), Priority::Medium);
    assert_eq!(Priority::from_input(Some("oops".to_string())), Priority::Medium);
    assert_eq!(Priority::from_input(None), Priority::Medium);
}
