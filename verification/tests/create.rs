use task_tracker::{add_task, create_task, Date, Priority, Status, Task};

#[test]
fn create_task_valid() {
    let task_name = "Test Task".to_string();
    let time_remaining = 3;
    let due_date = Date { year: 2024, month: 12, day: 31 };
    let priority_level = Priority::High;
    let minimum_chunk_size = None;

    let task = create_task(
        task_name.clone(),
        time_remaining,
        due_date,
        priority_level,
        minimum_chunk_size,
    )
    .unwrap();

    assert_eq!(task.name, task_name);
    assert_eq!(task.time_remaining, time_remaining);
    assert_eq!(task.due_date, due_date);
    assert_eq!(task.priority_level, Priority::High);
    assert_eq!(task.status, Status::UnStarted);
}

#[test]
fn created_task_starts_fresh() {
    let task = create_task(
        "fresh".to_string(),
        45,
        Date { year: 2025, month: 1, day: 1 },
        Priority::Medium,
        Some(15),
    )
    .unwrap();

    assert_eq!(task.elapsed_time, 0);
    assert!(task.work_intervals.is_empty());
    assert_eq!(task.minimum_chunk_size, Some(15));
    // the identifier is the canonical 36-character hyphenated form
    assert_eq!(task.id.chars().count(), 36);
}

#[test]
fn two_created_tasks_get_distinct_ids() {
    let a = create_task(
        "a".to_string(),
        1,
        Date { year: 2025, month: 1, day: 1 },
        Priority::Low,
        None,
    )
    .unwrap();
    let b = create_task(
        "b".to_string(),
        1,
        Date { year: 2025, month: 1, day: 1 },
        Priority::Low,
        None,
    )
    .unwrap();
    assert_ne!(a.id, b.id);
}

#[test]
fn add_task_inserts_in_display_order() {
    let mut tasks: Vec<Task> = Vec::new();
    add_task(
        &mut tasks,
        "later".to_string(),
        10,
        Date { year: 2025, month: 6, day: 1 },
        Priority::Low,
        None,
    )
    .unwrap();
    add_task(
        &mut tasks,
        "sooner".to_string(),
        10,
        Date { year: 2025, month: 6, day: 1 },
        Priority::Urgent,
        None,
    )
    .unwrap();

    assert_eq!(tasks.len(), 2);
    assert_eq!(tasks[0].name, "sooner");
    assert_eq!(tasks[1].name, "later");
}
