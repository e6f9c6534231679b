use task_tracker::{filter_out_completed_tasks, Date, Priority, Status, Task};

fn create_sample_tasks() -> Vec<Task> {
    vec![
        Task {
            id: "task-1".to_string(),
            name: "Complete Rust project".to_string(),
            time_remaining: 120,
            due_date: Date { year: 2024, month: 12, day: 1 },
            status: Status::InProgress,
            created_date: 1_700_000_000,
            priority_level: Priority::High,
            minimum_chunk_size: None,
            elapsed_time: 0,
            work_intervals: vec![],
        },
        Task {
            id: "task-2".to_string(),
            name: "Read documentation".to_string(),
            time_remaining: 60,
            due_date: Date { year: 2024, month: 11, day: 25 },
            status: Status::UnStarted,
            created_date: 1_700_000_000,
            priority_level: Priority::Medium,
            minimum_chunk_size: None,
            elapsed_time: 0,
            work_intervals: vec![],
        },
        Task {
            id: "task-3".to_string(),
            name: "Prepare presentation".to_string(),
            time_remaining: 90,
            due_date: Date { year: 2024, month: 11, day: 29 },
            status: Status::Completed,
            created_date: 1_700_000_000,
            priority_level: Priority::Urgent,
            minimum_chunk_size: Some(30),
            elapsed_time: 0,
            work_intervals: vec![],
        },
    ]
}

#[test]
fn filter_completed_out_of_list() {
    let tasks = create_sample_tasks();

    let result = filter_out_completed_tasks(&tasks).expect("Filtering failed");
    assert_eq!(result.len(), 2); // Only 2 tasks are not completed
    assert!(result.iter().all(|task| task.status != Status::Completed));
}

#[test]
fn filter_keeps_relative_order() {
    let tasks = create_sample_tasks();
    let result = filter_out_completed_tasks(&tasks).unwrap();
    assert_eq!(result[0].name, "Complete Rust project");
    assert_eq!(result[1].name, "Read documentation");
}

#[test]
fn filter_of_all_completed_is_empty() {
    let mut tasks = create_sample_tasks();
    for t in tasks.iter_mut() {
        t.status = Status::Completed;
    }
    let result = filter_out_completed_tasks(&tasks).unwrap();
    assert!(result.is_empty());
}
