//! The task factory: building a fresh task and adding it to a collection
//! in display order.

use vstd::prelude::*;
use crate::date::Date;
use crate::error::Error;
use crate::schedule::{schedule_spec, schedule_tasks};
use crate::task::{task_wf, Interval, Priority, Status, Task, TaskView};
use crate::trusted::{fresh_task_id, now_seconds};

verus! {

/// The shape of a newly created task: the given descriptive fields, not
/// yet started, nothing worked, no interval history, and a 36-character
/// identifier. The identifier's value and the creation time are whatever
/// the identifier source and the clock supplied.
pub open spec fn fresh_task(
    t: TaskView,
    name: Seq<char>,
    time_remaining: u32,
    due_date: Date,
    priority_level: Priority,
    minimum_chunk_size: Option<u32>,
) -> bool {
    &&& t.name == name
    &&& t.time_remaining == time_remaining
    &&& t.due_date == due_date
    &&& t.status == Status::UnStarted
    &&& t.priority_level == priority_level
    &&& t.minimum_chunk_size == minimum_chunk_size
    &&& t.elapsed_time == 0
    &&& t.work_intervals == Seq::<Interval>::empty()
    &&& t.id.len() == 36
}

/// Create a task: unstarted, no time worked yet, a fresh identifier, the
/// clock's current reading as creation time.
pub fn create_task(
    name: String,
    time_remaining: u32,
    due_date: Date,
    priority_level: Priority,
    minimum_chunk_size: Option<u32>,
) -> (r: Result<Task, Error>)
    ensures
        r matches Ok(t) && fresh_task(
            t@,
            name@,
            time_remaining,
            due_date,
            priority_level,
            minimum_chunk_size,
        ),
        r matches Ok(t) ==> task_wf(t@),
{
    let ts = now_seconds();
    let created: u64 = if ts < 0 {
        0
    } else {
        ts as u64
    };
    let task = Task {
        id: fresh_task_id(),
        name,
        time_remaining,
        elapsed_time: 0,
        due_date,
        status: Status::UnStarted,
        created_date: created,
        priority_level,
        minimum_chunk_size,
        work_intervals: Vec::new(),
    };
    proof {
        assert(task@.work_intervals =~= Seq::<Interval>::empty());
    }
    Ok(task)
}

/// Create a task and add it to the collection, which is then re-sorted
/// into display order.
pub fn add_task(
    tasks: &mut Vec<Task>,
    name: String,
    time_remaining: u32,
    due_date: Date,
    priority_level: Priority,
    minimum_chunk_size: Option<u32>,
) -> (r: Result<(), Error>)
    ensures
        r is Ok,
        exists|t: TaskView|
            fresh_task(t, name@, time_remaining, due_date, priority_level, minimum_chunk_size)
                && final(tasks).deep_view() == schedule_spec(old(tasks).deep_view().push(t)),
{
    let new_task = match create_task(name, time_remaining, due_date, priority_level,
        minimum_chunk_size) {
        Ok(t) => t,
        Err(e) => {
            return Err(e);
        },
    };
    let ghost added = new_task@;
    tasks.push(new_task);
    proof {
        assert(tasks.deep_view() =~= old(tasks).deep_view().push(added));
    }
    schedule_tasks(tasks);
    Ok(())
}

} // verus!
