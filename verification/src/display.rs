//! Display-time filtering of a task collection. Filtering keeps the
//! surviving tasks in their original relative order.

use vstd::prelude::*;
use crate::error::Error;
use crate::task::{Status, Task, TaskView};

verus! {

/// A task survives the display filter unless it is completed.
pub open spec fn not_completed(t: TaskView) -> bool {
    t.status != Status::Completed
}

/// The tasks that are not completed, in their original order.
pub fn filter_out_completed_tasks(tasks: &Vec<Task>) -> (r: Result<Vec<Task>, Error>)
    ensures
        r matches Ok(v) && v.deep_view() == tasks.deep_view().filter(
            |t: TaskView| not_completed(t),
        ),
{
    let n = tasks.len();
    let mut out: Vec<Task> = Vec::new();
    let mut i: usize = 0;
    while i < n
        invariant
            0 <= i <= n,
            n == tasks@.len(),
            out.deep_view() =~= tasks.deep_view().take(i as int).filter(
                |t: TaskView| not_completed(t),
            ),
        decreases n - i,
    {
        let current = &tasks[i];
        let keep: bool = match current.status {
            Status::Completed => false,
            _ => true,
        };
        proof {
            let dv = tasks.deep_view();
            dv.lemma_take_succ_push(i as int);
            dv.take(i as int).lemma_filter_push(dv[i as int], |t: TaskView| not_completed(t));
        }
        if keep {
            out.push(current.clone());
        }
        i = i + 1;
    }
    proof {
        assert(tasks.deep_view().take(n as int) =~= tasks.deep_view());
    }
    Ok(out)
}

} // verus!
