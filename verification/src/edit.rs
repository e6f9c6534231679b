//! The edit merger: applying a sparse payload of field overrides onto an
//! existing task, and replacing an edited task inside a collection.

use vstd::prelude::*;
use vstd::string::StringExecFns;
use crate::error::Error;
use crate::task::{
    PayloadView, Priority, Status, Task, TaskEditPayload, TaskView, priority_of_input,
    status_of_name, status_of_option,
};
use crate::trusted::{parse_ymd, ymd_of};
use crate::text::parse_u8_decimal;

verus! {

/// Overwrite the status directly, bypassing interval bookkeeping.
pub fn update_status(task: &mut Task, status: Status)
    ensures
        final(task)@ == (TaskView { status, ..old(task)@ }),
{
    task.status = status;
}

/// Whether a merge with this payload succeeds: only a malformed status
/// name aborts it; every other unusable field falls back silently.
pub open spec fn edit_ok(p: PayloadView) -> bool {
    status_of_option(p.status) is Some
}

/// The payload that overrides nothing.
pub open spec fn empty_payload() -> PayloadView {
    PayloadView {
        name: None,
        time_remaining: None,
        due_date: None,
        status: None,
        priority: None,
        minimum_chunk_size: None,
        elapsed_time: None,
    }
}

/// The merged task: a supplied field wins if it is usable, otherwise the
/// old value stays. Identity, creation time and interval history always
/// carry over. A due date that does not parse and a priority that does
/// not parse fall back silently; the status is assumed parseable here
/// (see [`edit_ok`]).
pub open spec fn edit_spec(t: TaskView, p: PayloadView) -> TaskView {
    TaskView {
        id: t.id,
        name: match p.name {
            Some(n) => n,
            None => t.name,
        },
        time_remaining: match p.time_remaining {
            Some(v) => v,
            None => t.time_remaining,
        },
        due_date: match p.due_date {
            Some(s) => match ymd_of(s) {
                Some(d) => d,
                None => t.due_date,
            },
            None => t.due_date,
        },
        status: match p.status {
            Some(s) => match status_of_name(s) {
                Some(st) => st,
                None => t.status,
            },
            None => t.status,
        },
        created_date: t.created_date,
        priority_level: match p.priority {
            Some(s) => match priority_of_input(s) {
                Some(pr) => pr,
                None => t.priority_level,
            },
            None => t.priority_level,
        },
        minimum_chunk_size: match p.minimum_chunk_size {
            Some(c) => Some(c),
            None => t.minimum_chunk_size,
        },
        work_intervals: t.work_intervals,
        elapsed_time: match p.elapsed_time {
            Some(v) => v,
            None => t.elapsed_time,
        },
    }
}

/// Merge a payload of sparse overrides onto a task, never mutating the
/// original. Fails exactly when the payload carries a malformed status
/// name; every other unusable field keeps the old value.
pub fn edit_task(old_task: &Task, payload: &TaskEditPayload) -> (r: Result<Task, Error>)
    ensures
        r is Ok <==> edit_ok(payload@),
        r matches Ok(t) ==> t@ == edit_spec(old_task@, payload@),
        r matches Err(e) ==> e matches Error::Generic(m) && payload@.status matches Some(s) && m@
            == "Invalid status: "@ + s,
{
    let due_date: Option<crate::date::Date> = match &payload.due_date {
        Some(text) => parse_ymd(text.as_str()),
        None => None,
    };

    let status: Option<Status> = match &payload.status {
        Some(text) => match Status::from_str(text.as_str()) {
            Ok(st) => Some(st),
            Err(e) => {
                return Err(e);
            },
        },
        None => None,
    };

    let priority: Option<Priority> = match &payload.priority {
        Some(text) => match parse_u8_decimal(text.as_str()) {
            Some(n) => if n == 1 {
                Some(Priority::Urgent)
            } else if n == 2 {
                Some(Priority::High)
            } else if n == 3 {
                Some(Priority::Medium)
            } else if n == 4 {
                Some(Priority::Low)
            } else {
                None
            },
            None => None,
        },
        None => None,
    };

    let task = Task {
        id: old_task.id.clone(),
        name: match &payload.name {
            Some(n) => n.clone(),
            None => old_task.name.clone(),
        },
        time_remaining: match payload.time_remaining {
            Some(v) => v,
            None => old_task.time_remaining,
        },
        due_date: match due_date {
            Some(d) => d,
            None => old_task.due_date,
        },
        status: match status {
            Some(st) => st,
            None => old_task.status,
        },
        created_date: old_task.created_date,
        priority_level: match priority {
            Some(p) => p,
            None => old_task.priority_level,
        },
        minimum_chunk_size: match payload.minimum_chunk_size {
            Some(c) => Some(c),
            None => old_task.minimum_chunk_size,
        },
        work_intervals: old_task.work_intervals.clone(),
        elapsed_time: match payload.elapsed_time {
            Some(v) => v,
            None => old_task.elapsed_time,
        },
    };
    proof {
        assert(task@ =~= edit_spec(old_task@, payload@));
    }
    Ok(task)
}

/// Replace the task that shares the edited task's identifier, in place.
/// Fails, leaving the collection untouched, if no task carries that
/// identifier; otherwise the first such task is replaced.
pub fn update_task_in_list(tasks: &mut Vec<Task>, updated_task: Task) -> (r: Result<(), Error>)
    ensures
        r is Ok <==> (exists|i: int|
            0 <= i < old(tasks).deep_view().len() && old(tasks).deep_view()[i].id
                == updated_task@.id),
        r is Ok ==> (exists|i: int|
            {
                &&& 0 <= i < old(tasks).deep_view().len()
                &&& old(tasks).deep_view()[i].id == updated_task@.id
                &&& (forall|j: int|
                    0 <= j < i ==> old(tasks).deep_view()[j].id != updated_task@.id)
                &&& final(tasks).deep_view() == old(tasks).deep_view().update(
                    i,
                    updated_task@,
                )
            }),
        r is Err ==> final(tasks)@ == old(tasks)@,
        r matches Err(e) ==> e matches Error::Generic(m) && m@ == "Task not found in list"@,
{
    let n = tasks.len();
    let mut i: usize = 0;
    let mut found: Option<usize> = None;
    while i < n
        invariant
            0 <= i <= n,
            n == tasks@.len(),
            tasks@ == old(tasks)@,
            found is None ==> (forall|j: int|
                0 <= j < i ==> tasks.deep_view()[j].id != updated_task@.id),
            found matches Some(k) ==> 0 <= k < i && tasks.deep_view()[k as int].id
                == updated_task@.id && (forall|j: int|
                0 <= j < k ==> tasks.deep_view()[j].id != updated_task@.id),
        decreases n - i,
    {
        if found.is_none() {
            let current = &tasks[i];
            if current.id == updated_task.id {
                found = Some(i);
            }
        }
        i = i + 1;
    }
    match found {
        Some(k) => {
            let ghost pre = tasks.deep_view();
            tasks.set(k, updated_task);
            proof {
                assert(tasks.deep_view() =~= pre.update(k as int, updated_task@));
            }
            Ok(())
        },
        None => Err(Error::Generic(String::from_str("Task not found in list"))),
    }
}

/// An empty payload edits nothing: the merge succeeds and returns the
/// task unchanged in every field.
pub proof fn lemma_edit_empty_payload(t: TaskView)
    ensures
        edit_ok(empty_payload()),
        edit_spec(t, empty_payload()) == t,
{
    assert(edit_spec(t, empty_payload()) =~= t);
}

/// A due-date text that does not parse never aborts the merge and leaves
/// the due date unchanged.
pub proof fn lemma_edit_bad_due_date(t: TaskView, p: PayloadView)
    requires
        p.due_date matches Some(s) && ymd_of(s) is None,
    ensures
        edit_spec(t, p).due_date == t.due_date,
{
}

/// A priority text that does not parse never aborts the merge and leaves
/// the priority unchanged.
pub proof fn lemma_edit_bad_priority(t: TaskView, p: PayloadView)
    requires
        p.priority matches Some(s) && priority_of_input(s) is None,
    ensures
        edit_spec(t, p).priority_level == t.priority_level,
{
}

/// Edits never alter a task's identity, creation time or interval
/// history.
pub proof fn lemma_edit_keeps_identity(t: TaskView, p: PayloadView)
    ensures
        edit_spec(t, p).id == t.id,
        edit_spec(t, p).created_date == t.created_date,
        edit_spec(t, p).work_intervals == t.work_intervals,
{
}

} // verus!
