use task_tracker::{schedule_tasks, Date, Priority, Status, Task};

fn task(id: &str, priority: Priority, date: Date) -> Task {
    Task {
        id: id.to_string(),
        name: id.to_string(),
        time_remaining: 10,
        elapsed_time: 0,
        due_date: date,
        status: Status::UnStarted,
        created_date: 1_700_000_000,
        priority_level: priority,
        minimum_chunk_size: None,
        work_intervals: vec![],
    }
}

fn rank(p: &Priority) -> u8 {
    match p {
        Priority::Urgent => 1,
        Priority::High => 2,
        Priority::Medium => 3,
        Priority::Low => 4,
    }
}

#[test]
fn schedule_sorts_by_priority_then_due_date() {
    let mut tasks = vec![
        task("d", Priority::Low, Date { year: 2024, month: 1, day: 1 }),
        task("b", Priority::High, Date { year: 2024, month: 6, day: 1 }),
        task("a", Priority::High, Date { year: 2024, month: 2, day: 1 }),
        task("c", Priority::Medium, Date { year: 2023, month: 1, day: 1 }),
        task("e", Priority::Urgent, Date { year: 2030, month: 12, day: 31 }),
    ];
    schedule_tasks(&mut tasks);

    let order: Vec<&str> = tasks.iter().map(|t| t.id.as_str()).collect();
    assert_eq!(order, vec!["e", "a", "b", "c", "d"]);

    // every adjacent pair respects the order
    for pair in tasks.windows(2) {
        let (a, b) = (&pair[0], &pair[1]);
        assert!(rank(&a.priority_level) <= rank(&b.priority_level));
        if rank(&a.priority_level) == rank(&b.priority_level) {
            assert!(
                (a.due_date.year, a.due_date.month, a.due_date.day)
                    <= (b.due_date.year, b.due_date.month, b.due_date.day)
            );
        }
    }
}

#[test]
fn schedule_is_stable_for_ties() {
    let d = Date { year: 2024, month: 3, day: 3 };
    let mut tasks = vec![
        task("tie-1", Priority::Medium, d),
        task("urgent", Priority::Urgent, d),
        task("tie-2", Priority::Medium, d),
        task("tie-3", Priority::Medium, d),
    ];
    schedule_tasks(&mut tasks);

    let order: Vec<&str> = tasks.iter().map(|t| t.id.as_str()).collect();
    assert_eq!(order, vec!["urgent", "tie-1", "tie-2", "tie-3"]);
}

#[test]
fn schedule_handles_empty_and_singleton() {
    let mut none: Vec<Task> = vec![];
    schedule_tasks(&mut none);
    assert!(none.is_empty());

    let mut one = vec![task("solo", Priority::Low, Date { year: 2024, month: 1, day: 1 })];
    schedule_tasks(&mut one);
    assert_eq!(one.len(), 1);
    assert_eq!(one[0].id, "solo");
}
