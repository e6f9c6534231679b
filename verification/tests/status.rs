use task_tracker::Status;

#[test]
fn status_names_parse_case_insensitively() {
    assert_eq!(Status::from_str("unstarted").unwrap(), Status::UnStarted);
    assert_eq!(Status::from_str("UnStarted").unwrap(), Status::UnStarted);
    assert_eq!(Status::from_str("UNSTARTED").unwrap(), Status::UnStarted);
    assert_eq!(Status::from_str("InProgress").unwrap(), Status::InProgress);
    assert_eq!(Status::from_str("completed").unwrap(), Status::Completed);
    assert_eq!(Status::from_str("OnHold").unwrap(), Status::OnHold);
    assert_eq!(Status::from_str("DELETED").unwrap(), Status::Deleted);
}

#[test]
fn unknown_status_name_is_an_error() {
    let err = Status::from_str("bogus").unwrap_err();
    assert_eq!(err.message(), "Invalid status: bogus");
    assert!(Status::from_str("").is_err());
    assert!(Status::from_str("in progress").is_err());
}

#[test]
fn from_option_passes_absence_through() {
    assert_eq!(Status::from_option(None).unwrap(), None);
    assert_eq!(
        Status::from_option(Some("onhold".to_string())).unwrap(),
        Some(Status::OnHold)
    );
    assert!(Status::from_option(Some("nonsense".to_string())).is_err());
}
