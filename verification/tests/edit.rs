use task_tracker::{
    edit_task, update_status, update_task_in_list, Date, Interval, Priority, Status, Task,
    TaskEditPayload,
};

fn sample_task() -> Task {
    Task {
        id: "aaaaaaaa-bbbb-cccc-dddd-eeeeeeeeeeee".to_string(),
        name: "write report".to_string(),
        time_remaining: 120,
        elapsed_time: 15,
        due_date: Date { year: 2024, month: 11, day: 15 },
        status: Status::OnHold,
        created_date: 1_700_000_000,
        priority_level: Priority::High,
        minimum_chunk_size: Some(20),
        work_intervals: vec![Interval { start: 100, end: Some(700) }],
    }
}

fn empty_payload() -> TaskEditPayload {
    TaskEditPayload {
        name: None,
        time_remaining: None,
        due_date: None,
        status: None,
        priority: None,
        minimum_chunk_size: None,
        elapsed_time: None,
    }
}

#[test]
fn empty_payload_changes_nothing() {
    let task = sample_task();
    let edited = edit_task(&task, &empty_payload()).unwrap();
    assert_eq!(edited, task);
}

#[test]
fn bogus_status_fails_the_whole_edit() {
    let task = sample_task();
    let payload = TaskEditPayload { status: Some("bogus".to_string()), ..empty_payload() };
    let err = edit_task(&task, &payload).unwrap_err();
    assert_eq!(err.message(), "Invalid status: bogus");
}

#[test]
fn bad_due_date_falls_back_silently() {
    let task = sample_task();
    let payload = TaskEditPayload {
        due_date: Some("not-a-date".to_string()),
        name: Some("renamed".to_string()),
        ..empty_payload()
    };
    let edited = edit_task(&task, &payload).unwrap();
    assert_eq!(edited.due_date, task.due_date);
    assert_eq!(edited.name, "renamed");
}

#[test]
fn good_due_date_is_parsed() {
    let task = sample_task();
    let payload = TaskEditPayload { due_date: Some("2025-03-09".to_string()), ..empty_payload() };
    let edited = edit_task(&task, &payload).unwrap();
    assert_eq!(edited.due_date, Date { year: 2025, month: 3, day: 9 });
}

#[test]
fn invalid_calendar_date_falls_back() {
    let task = sample_task();
    let payload = TaskEditPayload { due_date: Some("2025-02-30".to_string()), ..empty_payload() };
    let edited = edit_task(&task, &payload).unwrap();
    assert_eq!(edited.due_date, task.due_date);
}

#[test]
fn bad_priority_falls_back_silently() {
    let task = sample_task();
    let payload = TaskEditPayload { priority: Some("nine".to_string()), ..empty_payload() };
    let edited = edit_task(&task, &payload).unwrap();
    assert_eq!(edited.priority_level, Priority::High);
}

#[test]
fn supplied_fields_win() {
    let task = sample_task();
    let payload = TaskEditPayload {
        name: Some("new name".to_string()),
        time_remaining: Some(60),
        due_date: Some("2025-01-02".to_string()),
        status: Some("completed".to_string()),
        priority: Some("4".to_string()),
        minimum_chunk_size: Some(45),
        elapsed_time: Some(99),
    };
    let edited = edit_task(&task, &payload).unwrap();
    assert_eq!(edited.name, "new name");
    assert_eq!(edited.time_remaining, 60);
    assert_eq!(edited.due_date, Date { year: 2025, month: 1, day: 2 });
    assert_eq!(edited.status, Status::Completed);
    assert_eq!(edited.priority_level, Priority::Low);
    assert_eq!(edited.minimum_chunk_size, Some(45));
    assert_eq!(edited.elapsed_time, 99);
    // identity, creation time and history always carry over
    assert_eq!(edited.id, task.id);
    assert_eq!(edited.created_date, task.created_date);
    assert_eq!(edited.work_intervals, task.work_intervals);
}

#[test]
fn update_status_overwrites_directly() {
    let mut task = sample_task();
    update_status(&mut task, Status::Completed);
    assert_eq!(task.status, Status::Completed);
    // interval bookkeeping is bypassed
    assert_eq!(task.work_intervals, sample_task().work_intervals);
}

#[test]
fn update_task_in_list_replaces_by_id() {
    let mut tasks = vec![sample_task()];
    let mut edited = sample_task();
    edited.name = "replaced".to_string();
    update_task_in_list(&mut tasks, edited).unwrap();
    assert_eq!(tasks[0].name, "replaced");
}

#[test]
fn update_task_in_list_fails_on_unknown_id() {
    let mut tasks = vec![sample_task()];
    let mut stranger = sample_task();
    stranger.id = "99999999-9999-9999-9999-999999999999".to_string();
    let err = update_task_in_list(&mut tasks, stranger).unwrap_err();
    assert_eq!(err.message(), "Task not found in list");
    assert_eq!(tasks[0].name, "write report");
}
