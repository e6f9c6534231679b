use task_tracker::{get_task, Date, Priority, Status, Task};

fn task_with_id(id: &str, name: &str) -> Task {
    Task {
        id: id.to_string(),
        name: name.to_string(),
        time_remaining: 10,
        elapsed_time: 0,
        due_date: Date { year: 2025, month: 5, day: 5 },
        status: Status::UnStarted,
        created_date: 1_700_000_000,
        priority_level: Priority::Medium,
        minimum_chunk_size: None,
        work_intervals: vec![],
    }
}

fn sample_tasks() -> Vec<Task> {
    vec![
        task_with_id("abc123", "first"),
        task_with_id("abd456", "second"),
        task_with_id("xyz789", "third"),
    ]
}

#[test]
fn unique_prefix_finds_the_task() {
    let tasks = sample_tasks();
    let found = get_task(&tasks, "abc").unwrap();
    assert_eq!(found.name, "first");
    let found = get_task(&tasks, "x").unwrap();
    assert_eq!(found.name, "third");
}

#[test]
fn zero_matches_yield_none() {
    let tasks = sample_tasks();
    assert!(get_task(&tasks, "zzz").is_none());
    assert!(get_task(&tasks, "abc1234567").is_none());
}

#[test]
fn ambiguous_prefix_yields_none() {
    let tasks = sample_tasks();
    // "ab" matches both abc123 and abd456
    assert!(get_task(&tasks, "ab").is_none());
    // the empty prefix matches everything
    assert!(get_task(&tasks, "").is_none());
}

#[test]
fn empty_prefix_on_singleton_matches_it() {
    let tasks = vec![task_with_id("only-1", "alone")];
    let found = get_task(&tasks, "").unwrap();
    assert_eq!(found.name, "alone");
}
