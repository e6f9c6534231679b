//! The task locator: resolving a user-supplied identifier prefix to
//! exactly one task.

use vstd::prelude::*;
use crate::task::{Task, TaskView};
use crate::text::{is_prefix_of, str_starts_with};

verus! {

/// The task's identifier starts with the given prefix.
pub open spec fn matches_prefix(t: TaskView, p: Seq<char>) -> bool {
    is_prefix_of(p, t.id)
}

/// Resolve an identifier prefix. The task is returned only when exactly
/// one task matches; no match and several matches both yield nothing.
pub fn get_task(tasks: &Vec<Task>, search_string: &str) -> (r: Option<Task>)
    ensures
        ({
            let m = tasks.deep_view().filter(
                |t: TaskView| matches_prefix(t, search_string@),
            );
            &&& (m.len() == 1 ==> (r matches Some(t) && t@ == m[0]))
            &&& (m.len() != 1 ==> r is None)
        }),
{
    let n = tasks.len();
    let mut count: usize = 0;
    let mut first: Option<usize> = None;
    let mut i: usize = 0;
    while i < n
        invariant
            0 <= i <= n,
            n == tasks@.len(),
            count <= i,
            count == tasks.deep_view().take(i as int).filter(
                |t: TaskView| matches_prefix(t, search_string@),
            ).len(),
            first is None <==> count == 0,
            first matches Some(k) ==> 0 <= k < i && matches_prefix(
                tasks.deep_view()[k as int],
                search_string@,
            ) && tasks.deep_view().take(k as int).filter(
                |t: TaskView| matches_prefix(t, search_string@),
            ).len() == 0,
        decreases n - i,
    {
        let current = &tasks[i];
        let hit = str_starts_with(current.id.as_str(), search_string);
        proof {
            let dv = tasks.deep_view();
            dv.lemma_take_succ_push(i as int);
            dv.take(i as int).lemma_filter_push(
                dv[i as int],
                |t: TaskView| matches_prefix(t, search_string@),
            );
        }
        if hit {
            if count == 0 {
                first = Some(i);
            }
            count = count + 1;
        }
        i = i + 1;
    }
    proof {
        assert(tasks.deep_view().take(n as int) =~= tasks.deep_view());
    }
    if count == 1 {
        if let Some(k) = first {
            proof {
                let dv = tasks.deep_view();
                let pred = |t: TaskView| matches_prefix(t, search_string@);
                dv.lemma_take_succ_push(k as int);
                dv.take(k as int).lemma_filter_push(dv[k as int], pred);
                Seq::filter_distributes_over_add(
                    dv.take(k + 1),
                    dv.subrange(k + 1, n as int),
                    pred,
                );
                assert(dv.take(k + 1) + dv.subrange(k + 1, n as int) =~= dv);
                assert(dv.filter(pred)[0] == dv[k as int]);
            }
            let found = &tasks[k];
            Some(found.clone())
        } else {
            proof {
                assert(false);
            }
            None
        }
    } else {
        None
    }
}

} // verus!
