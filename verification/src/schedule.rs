//! The scheduler: the canonical display order over a task collection.
//! Tasks sort by priority (most urgent first), then by due date (earliest
//! first); ties keep their original relative order.

use vstd::prelude::*;
use vstd::seq_lib::lemma_multiset_commutative;
use crate::date::{date_le, lemma_date_le_total, lemma_date_le_trans, Date};
use crate::task::{priority_rank, Task, TaskView};

verus! {

/// The display order: `a` may stand before `b`. Primary key priority
/// rank ascending (most urgent first), secondary key due date ascending.
pub open spec fn sched_le(a: TaskView, b: TaskView) -> bool {
    ||| priority_rank(a.priority_level) < priority_rank(b.priority_level)
    ||| (priority_rank(a.priority_level) == priority_rank(b.priority_level) && date_le(
        a.due_date,
        b.due_date,
    ))
}

/// The executable twin of [`sched_le`].
fn sched_le_exec(a: &Task, b: &Task) -> (r: bool)
    ensures
        r == sched_le(a@, b@),
{
    let ra = a.priority_level.rank();
    let rb = b.priority_level.rank();
    if ra != rb {
        ra < rb
    } else {
        a.due_date.is_on_or_before(&b.due_date)
    }
}

/// The display order is total.
pub proof fn lemma_sched_le_total(a: TaskView, b: TaskView)
    ensures
        sched_le(a, b) || sched_le(b, a),
{
    lemma_date_le_total(a.due_date, b.due_date);
}

/// The display order is transitive.
pub proof fn lemma_sched_le_trans(a: TaskView, b: TaskView, c: TaskView)
    requires
        sched_le(a, b),
        sched_le(b, c),
    ensures
        sched_le(a, c),
{
    if priority_rank(a.priority_level) == priority_rank(b.priority_level) && priority_rank(
        b.priority_level,
    ) == priority_rank(c.priority_level) {
        lemma_date_le_trans(a.due_date, b.due_date, c.due_date);
    }
}

/// `x` slotted into `s` after every leading element that may stand before
/// it; with a sorted `s` this keeps the order and puts `x` after its ties.
pub open spec fn insert_ordered(x: TaskView, s: Seq<TaskView>) -> Seq<TaskView>
    decreases s.len(),
{
    if s.len() == 0 {
        seq![x]
    } else if sched_le(s.first(), x) {
        seq![s.first()] + insert_ordered(x, s.drop_first())
    } else {
        seq![x] + s
    }
}

/// Where [`insert_ordered`] slots `x` into `s`: the first position whose
/// element may not stand before `x`.
pub open spec fn insert_pos(x: TaskView, s: Seq<TaskView>) -> int
    decreases s.len(),
{
    if s.len() == 0 {
        0
    } else if sched_le(s.first(), x) {
        1 + insert_pos(x, s.drop_first())
    } else {
        0
    }
}

/// The whole collection in display order: each task in turn slotted into
/// the order built from the tasks before it.
pub open spec fn schedule_spec(s: Seq<TaskView>) -> Seq<TaskView>
    decreases s.len(),
{
    if s.len() == 0 {
        s
    } else {
        insert_ordered(s.last(), schedule_spec(s.drop_last()))
    }
}

/// The collection is in display order: every task may stand before each
/// one after it.
pub open spec fn sched_sorted(s: Seq<TaskView>) -> bool {
    forall|i: int, j: int| 0 <= i < j < s.len() ==> sched_le(#[trigger] s[i], #[trigger] s[j])
}

/// Slotting `x` in at any position `p` whose leading elements all may
/// stand before `x`, and whose element (if any) may not, is exactly a
/// positional insert at `p`.
pub proof fn lemma_insert_ordered_at(x: TaskView, s: Seq<TaskView>, p: int)
    requires
        0 <= p <= s.len(),
        forall|j: int| 0 <= j < p ==> sched_le(#[trigger] s[j], x),
        p < s.len() ==> !sched_le(s[p], x),
    ensures
        insert_ordered(x, s) == s.insert(p, x),
    decreases s.len(),
{
    if s.len() == 0 {
        assert(insert_ordered(x, s) =~= s.insert(0, x));
    } else if p == 0 {
        assert(!sched_le(s.first(), x));
        assert(insert_ordered(x, s) =~= s.insert(0, x));
    } else {
        assert(sched_le(s[0], x));
        let rest = s.drop_first();
        assert forall|j: int| 0 <= j < p - 1 implies sched_le(#[trigger] rest[j], x) by {
            assert(rest[j] == s[j + 1]);
        }
        assert(p - 1 < rest.len() ==> !sched_le(rest[p - 1], x));
        lemma_insert_ordered_at(x, rest, p - 1);
        assert(seq![s.first()] + rest.insert(p - 1, x) =~= s.insert(p, x));
    }
}

/// The position [`insert_pos`] names satisfies the slotting conditions of
/// [`lemma_insert_ordered_at`].
pub proof fn lemma_insert_pos_props(x: TaskView, s: Seq<TaskView>)
    ensures
        0 <= insert_pos(x, s) <= s.len(),
        forall|j: int| 0 <= j < insert_pos(x, s) ==> sched_le(#[trigger] s[j], x),
        insert_pos(x, s) < s.len() ==> !sched_le(s[insert_pos(x, s)], x),
    decreases s.len(),
{
    if s.len() > 0 {
        let rest = s.drop_first();
        lemma_insert_pos_props(x, rest);
        if sched_le(s.first(), x) {
            let p = insert_pos(x, s);
            assert forall|j: int| 0 <= j < p implies sched_le(#[trigger] s[j], x) by {
                if j > 0 {
                    assert(s[j] == rest[j - 1]);
                }
            }
            if p < s.len() {
                assert(s[p] == rest[p - 1]);
            }
        }
    }
}

/// A positional insert at a position that respects the order keeps the
/// collection sorted.
pub proof fn lemma_insert_at_sorted(x: TaskView, s: Seq<TaskView>, p: int)
    requires
        sched_sorted(s),
        0 <= p <= s.len(),
        forall|j: int| 0 <= j < p ==> sched_le(#[trigger] s[j], x),
        p < s.len() ==> !sched_le(s[p], x),
    ensures
        sched_sorted(s.insert(p, x)),
{
    let r = s.insert(p, x);
    s.insert_ensures(p, x);
    assert forall|i: int, j: int| 0 <= i < j < r.len() implies sched_le(#[trigger] r[i], #[trigger] r[j]) by {
        if i < p && j == p {
            assert(r[i] == s[i] && r[j] == x);
        } else if i == p && j > p {
            assert(r[i] == x && r[j] == s[j - 1]);
            assert(p < s.len());
            lemma_sched_le_total(s[p], x);
            assert(sched_le(x, s[p]));
            if j - 1 > p {
                assert(sched_le(s[p], s[j - 1]));
                lemma_sched_le_trans(x, s[p], s[j - 1]);
            }
        } else if i < p && j > p {
            assert(r[i] == s[i] && r[j] == s[j - 1]);
            if i < j - 1 {
                assert(sched_le(s[i], s[j - 1]));
            } else {
                lemma_sched_le_total(s[i], s[i]);
            }
        } else if i > p {
            assert(r[i] == s[i - 1] && r[j] == s[j - 1]);
        } else {
            assert(i < p && j < p);
            assert(r[i] == s[i] && r[j] == s[j]);
        }
    }
}

/// A positional insert adds exactly the inserted element to the
/// collection's multiset.
pub proof fn lemma_insert_at_multiset(s: Seq<TaskView>, p: int, x: TaskView)
    requires
        0 <= p <= s.len(),
    ensures
        s.insert(p, x).to_multiset() == s.to_multiset().insert(x),
{
    let a = s.subrange(0, p);
    let b = s.subrange(p, s.len() as int);
    assert(s =~= a + b);
    assert(s.insert(p, x) == a.push(x) + b);
    lemma_multiset_commutative(a, b);
    lemma_multiset_commutative(a.push(x), b);
    a.to_multiset_ensures();
    assert(a.push(x).to_multiset() =~= a.to_multiset().insert(x));
    assert((a.push(x) + b).to_multiset() =~= (a + b).to_multiset().insert(x));
}

/// The scheduled order is sorted: for every adjacent pair the first may
/// stand before the second (priority not larger; due date not later on a
/// priority tie).
pub proof fn lemma_schedule_sorted(s: Seq<TaskView>)
    ensures
        sched_sorted(schedule_spec(s)),
    decreases s.len(),
{
    if s.len() > 0 {
        let rest = s.drop_last();
        lemma_schedule_sorted(rest);
        let t = schedule_spec(rest);
        let x = s.last();
        lemma_insert_pos_props(x, t);
        lemma_insert_ordered_at(x, t, insert_pos(x, t));
        lemma_insert_at_sorted(x, t, insert_pos(x, t));
    }
}

/// Scheduling only reorders: the scheduled collection holds exactly the
/// tasks of the original, multiplicities included.
pub proof fn lemma_schedule_permutes(s: Seq<TaskView>)
    ensures
        schedule_spec(s).to_multiset() == s.to_multiset(),
    decreases s.len(),
{
    if s.len() > 0 {
        let rest = s.drop_last();
        lemma_schedule_permutes(rest);
        let t = schedule_spec(rest);
        let x = s.last();
        lemma_insert_pos_props(x, t);
        lemma_insert_ordered_at(x, t, insert_pos(x, t));
        lemma_insert_at_multiset(t, insert_pos(x, t), x);
        rest.to_multiset_ensures();
        assert(s =~= rest.push(x));
    }
}

/// The sort key of a task: its priority rank and its due date. Two tasks
/// with equal keys are ties of the display order.
pub open spec fn sched_key(t: TaskView) -> (int, Date) {
    (priority_rank(t.priority_level), t.due_date)
}

/// Tasks with equal keys may stand before one another either way.
pub proof fn lemma_key_eq_le(a: TaskView, b: TaskView)
    requires
        sched_key(a) == sched_key(b),
    ensures
        sched_le(a, b),
        sched_le(b, a),
{
}

/// Slotting a task into a sorted collection puts it after its ties and
/// disturbs no other key's subsequence.
proof fn lemma_insert_ordered_filter(x: TaskView, s: Seq<TaskView>, k: (int, Date))
    requires
        sched_sorted(s),
    ensures
        sched_key(x) == k ==> insert_ordered(x, s).filter(|t: TaskView| sched_key(t) == k)
            == s.filter(|t: TaskView| sched_key(t) == k).push(x),
        sched_key(x) != k ==> insert_ordered(x, s).filter(|t: TaskView| sched_key(t) == k)
            == s.filter(|t: TaskView| sched_key(t) == k),
    decreases s.len(),
{
    let pred = |t: TaskView| sched_key(t) == k;
    reveal(Seq::filter);
    if s.len() == 0 {
        assert(seq![x] =~= Seq::<TaskView>::empty().push(x));
        Seq::<TaskView>::empty().lemma_filter_push(x, pred);
    } else if sched_le(s.first(), x) {
        let rest = s.drop_first();
        assert forall|i: int, j: int| 0 <= i < j < rest.len() implies sched_le(
            #[trigger] rest[i],
            #[trigger] rest[j],
        ) by {
            assert(rest[i] == s[i + 1] && rest[j] == s[j + 1]);
        }
        lemma_insert_ordered_filter(x, rest, k);
        assert(s =~= seq![s.first()] + rest);
        Seq::filter_distributes_over_add(seq![s.first()], rest, pred);
        Seq::filter_distributes_over_add(seq![s.first()], insert_ordered(x, rest), pred);
        if sched_key(x) == k {
            Seq::push_distributes_over_add(
                seq![s.first()].filter(pred),
                rest.filter(pred),
                x,
            );
        }
    } else {
        if sched_key(x) == k {
            // x goes in front; no element of s shares its key, since
            // every element of s must stand strictly after x
            assert forall|j: int| 0 <= j < s.len() implies !pred(s[j]) by {
                if pred(s[j]) {
                    lemma_key_eq_le(s[j], x);
                    if j > 0 {
                        lemma_sched_le_trans(s[0], s[j], x);
                    }
                    assert(false);
                }
            }
            s.lemma_all_neg_filter_empty(pred);
            assert(s.filter(pred) =~= Seq::<TaskView>::empty());
            assert(insert_ordered(x, s) =~= seq![x] + s);
            Seq::filter_distributes_over_add(seq![x], s, pred);
            assert(seq![x] =~= Seq::<TaskView>::empty().push(x));
            Seq::<TaskView>::empty().lemma_filter_push(x, pred);
            assert(insert_ordered(x, s).filter(pred) =~= s.filter(pred).push(x));
        } else {
            Seq::filter_distributes_over_add(seq![x], s, pred);
            assert(seq![x] =~= Seq::<TaskView>::empty().push(x));
            Seq::<TaskView>::empty().lemma_filter_push(x, pred);
            assert(insert_ordered(x, s).filter(pred) =~= s.filter(pred));
        }
    }
}

/// Scheduling is stable: for every sort key, the tasks carrying that key
/// appear in the scheduled order exactly as they appeared in the input.
pub proof fn lemma_schedule_stable(s: Seq<TaskView>, k: (int, Date))
    ensures
        schedule_spec(s).filter(|t: TaskView| sched_key(t) == k) == s.filter(
            |t: TaskView| sched_key(t) == k,
        ),
    decreases s.len(),
{
    let pred = |t: TaskView| sched_key(t) == k;
    if s.len() > 0 {
        let rest = s.drop_last();
        lemma_schedule_stable(rest, k);
        lemma_schedule_sorted(rest);
        lemma_insert_ordered_filter(s.last(), schedule_spec(rest), k);
        rest.lemma_filter_push(s.last(), pred);
        assert(s =~= rest.push(s.last()));
    }
}

/// Sort the collection into display order, in place. The result is the
/// deterministic order of [`schedule_spec`]: sorted by priority then due
/// date, a permutation of the input, stable for ties.
pub fn schedule_tasks(tasks: &mut Vec<Task>)
    ensures
        final(tasks).deep_view() == schedule_spec(old(tasks).deep_view()),
        sched_sorted(final(tasks).deep_view()),
        final(tasks).deep_view().to_multiset() == old(tasks).deep_view().to_multiset(),
{
    let n = tasks.len();
    let mut in_order: Vec<Task> = Vec::new();
    let mut k: usize = 0;
    while k < n
        invariant
            0 <= k <= n,
            n == tasks@.len(),
            tasks@ == old(tasks)@,
            in_order.deep_view() == schedule_spec(tasks.deep_view().take(k as int)),
            sched_sorted(in_order.deep_view()),
        decreases n - k,
    {
        let x = (&tasks[k]).clone();
        let m = in_order.len();
        let ghost sdv = in_order.deep_view();
        let mut p: usize = 0;
        loop
            invariant_except_break
                0 <= p <= m,
                m == sdv.len(),
                in_order.deep_view() == sdv,
                x@ == tasks.deep_view()[k as int],
                forall|j: int| 0 <= j < p ==> sched_le(#[trigger] sdv[j], x@),
            ensures
                0 <= p <= m,
                in_order.deep_view() == sdv,
                forall|j: int| 0 <= j < p ==> sched_le(#[trigger] sdv[j], x@),
                p < m ==> !sched_le(sdv[p as int], x@),
            decreases m - p,
        {
            if p >= m {
                break;
            }
            if !sched_le_exec(&in_order[p], &x) {
                break;
            }
            p = p + 1;
        }
        proof {
            lemma_insert_ordered_at(x@, sdv, p as int);
            lemma_insert_at_sorted(x@, sdv, p as int);
            tasks.deep_view().lemma_take_succ_push(k as int);
        }
        in_order.insert(p, x);
        k = k + 1;
        proof {
            assert(in_order.deep_view() =~= sdv.insert(p as int, x@));
            let taken = tasks.deep_view().take(k as int);
            assert(taken.drop_last() =~= tasks.deep_view().take(k as int - 1));
            assert(taken.last() == tasks.deep_view()[k as int - 1]);
            assert(in_order.deep_view() == insert_ordered(taken.last(), schedule_spec(taken.drop_last())));
        }
    }
    proof {
        assert(tasks.deep_view().take(n as int) =~= tasks.deep_view());
    }
    *tasks = in_order;
    proof {
        lemma_schedule_permutes(old(tasks).deep_view());
    }
}

} // verus!
