//! The task model: the aggregate entity, its mathematical view, the status
//! machine, the priority codec and the work-interval time accounting.

use vstd::prelude::*;
use vstd::string::StringExecFns;
use crate::date::Date;
use crate::error::Error;
use crate::text::{str_eq, parse_u8_decimal, u8_of_decimal};
use crate::trusted::{lower_of, lowercase, now_seconds};

verus! {

/// The lifecycle state of a task.
#[derive(Clone, Copy, Debug, PartialEq, Eq, Structural)]
pub enum Status {
    UnStarted,
    InProgress,
    Completed,
    OnHold,
    Deleted,
}

/// How urgent a task is; `Urgent` sorts before `Low`.
#[derive(Clone, Copy, Debug, PartialEq, Eq, Structural)]
pub enum Priority {
    Urgent,
    High,
    Medium,
    Low,
}

/// A span of time during which the task was actively worked, in whole
/// seconds since the Unix epoch. An unset end marks the span as still open.
#[derive(Copy, Debug, PartialEq, Eq)]
pub struct Interval {
    pub start: u64,
    pub end: Option<u64>,
}

impl Clone for Interval {
    /// Cloning preserves the interval value exactly.
    fn clone(&self) -> (r: Self)
        ensures
            r == *self,
    {
        *self
    }
}

impl DeepView for Interval {
    type V = Interval;

    open spec fn deep_view(&self) -> Interval {
        *self
    }
}

/// The aggregate unit of work.
#[derive(Debug, PartialEq)]
pub struct Task {
    pub id: String,
    pub name: String,
    pub time_remaining: u32,
    pub elapsed_time: u32,
    pub due_date: Date,
    pub status: Status,
    pub created_date: u64,
    pub priority_level: Priority,
    pub minimum_chunk_size: Option<u32>,
    pub work_intervals: Vec<Interval>,
}

/// The mathematical value of a [`Task`]: the same fields with text as
/// character sequences and the interval history as a sequence.
#[verifier::ext_equal]
pub ghost struct TaskView {
    pub id: Seq<char>,
    pub name: Seq<char>,
    pub time_remaining: u32,
    pub elapsed_time: u32,
    pub due_date: Date,
    pub status: Status,
    pub created_date: u64,
    pub priority_level: Priority,
    pub minimum_chunk_size: Option<u32>,
    pub work_intervals: Seq<Interval>,
}

impl View for Task {
    type V = TaskView;

    open spec fn view(&self) -> TaskView {
        TaskView {
            id: self.id@,
            name: self.name@,
            time_remaining: self.time_remaining,
            elapsed_time: self.elapsed_time,
            due_date: self.due_date,
            status: self.status,
            created_date: self.created_date,
            priority_level: self.priority_level,
            minimum_chunk_size: self.minimum_chunk_size,
            work_intervals: self.work_intervals@,
        }
    }
}

impl DeepView for Task {
    type V = TaskView;

    open spec fn deep_view(&self) -> TaskView {
        self.view()
    }
}

impl Clone for Task {
    /// Cloning preserves the task value exactly.
    fn clone(&self) -> (r: Self)
        ensures
            r@ == self@,
    {
        let n = self.work_intervals.len();
        let mut intervals: Vec<Interval> = Vec::new();
        let mut i: usize = 0;
        while i < n
            invariant
                0 <= i <= n,
                n == self.work_intervals@.len(),
                intervals@ =~= self.work_intervals@.subrange(0, i as int),
            decreases n - i,
        {
            intervals.push(self.work_intervals[i]);
            i = i + 1;
        }
        let r = Task {
            id: self.id.clone(),
            name: self.name.clone(),
            time_remaining: self.time_remaining,
            elapsed_time: self.elapsed_time,
            due_date: self.due_date,
            status: self.status,
            created_date: self.created_date,
            priority_level: self.priority_level,
            minimum_chunk_size: self.minimum_chunk_size,
            work_intervals: intervals,
        };
        proof {
            assert(r.work_intervals@ =~= self.work_intervals@);
            assert(r@ =~= self@);
        }
        r
    }
}

/// A sparse set of field overrides, used only as input to the edit merger.
/// Free-text fields carry unparsed user input.
pub struct TaskEditPayload {
    pub name: Option<String>,
    pub time_remaining: Option<u32>,
    pub due_date: Option<String>,
    pub status: Option<String>,
    pub priority: Option<String>,
    pub minimum_chunk_size: Option<u32>,
    pub elapsed_time: Option<u32>,
}

/// The mathematical value of a [`TaskEditPayload`].
#[verifier::ext_equal]
pub ghost struct PayloadView {
    pub name: Option<Seq<char>>,
    pub time_remaining: Option<u32>,
    pub due_date: Option<Seq<char>>,
    pub status: Option<Seq<char>>,
    pub priority: Option<Seq<char>>,
    pub minimum_chunk_size: Option<u32>,
    pub elapsed_time: Option<u32>,
}

impl View for TaskEditPayload {
    type V = PayloadView;

    open spec fn view(&self) -> PayloadView {
        PayloadView {
            name: self.name.deep_view(),
            time_remaining: self.time_remaining,
            due_date: self.due_date.deep_view(),
            status: self.status.deep_view(),
            priority: self.priority.deep_view(),
            minimum_chunk_size: self.minimum_chunk_size,
            elapsed_time: self.elapsed_time,
        }
    }
}

/// Which status a free-text name denotes, case-insensitively; `None` for
/// unrecognized text.
pub open spec fn status_of_name(s: Seq<char>) -> Option<Status> {
    let l = lower_of(s);
    if l == "unstarted"@ {
        Some(Status::UnStarted)
    } else if l == "inprogress"@ {
        Some(Status::InProgress)
    } else if l == "completed"@ {
        Some(Status::Completed)
    } else if l == "onhold"@ {
        Some(Status::OnHold)
    } else if l == "deleted"@ {
        Some(Status::Deleted)
    } else {
        None
    }
}

/// [`Status::from_option`] as a value: `None` for a malformed name,
/// `Some(None)` where no name was supplied.
pub open spec fn status_of_option(s: Option<Seq<char>>) -> Option<Option<Status>> {
    match s {
        Some(t) => match status_of_name(t) {
            Some(st) => Some(Some(st)),
            None => None,
        },
        None => Some(None),
    }
}

impl Status {
    /// Parse a free-text status name, case-insensitively. Unrecognized
    /// text is an invalid-status error.
    pub fn from_str(s: &str) -> (r: Result<Status, Error>)
        ensures
            r matches Ok(st) ==> status_of_name(s@) == Some(st),
            r is Err <==> status_of_name(s@) is None,
            r matches Err(e) ==> e matches Error::Generic(m) && m@ == "Invalid status: "@ + s@,
    {
        let low = lowercase(s);
        if str_eq(low.as_str(), "unstarted") {
            Ok(Status::UnStarted)
        } else if str_eq(low.as_str(), "inprogress") {
            Ok(Status::InProgress)
        } else if str_eq(low.as_str(), "completed") {
            Ok(Status::Completed)
        } else if str_eq(low.as_str(), "onhold") {
            Ok(Status::OnHold)
        } else if str_eq(low.as_str(), "deleted") {
            Ok(Status::Deleted)
        } else {
            Err(Error::Generic(String::from_str("Invalid status: ").concat(s)))
        }
    }

    /// Parse an optional status name: absent input means "no change", a
    /// present but malformed name is an error.
    pub fn from_option(s: Option<String>) -> (r: Result<Option<Status>, Error>)
        ensures
            r matches Ok(opt) ==> status_of_option(s.deep_view()) == Some(opt),
            r is Err <==> status_of_option(s.deep_view()) is None,
    {
        match s {
            Some(text) => match Status::from_str(text.as_str()) {
                Ok(st) => Ok(Some(st)),
                Err(e) => Err(e),
            },
            None => Ok(None),
        }
    }
}

/// The priority denoted by a numeric string: "1" is most urgent, "4" is
/// least; anything else denotes no priority. The text is read exactly as
/// `u8::from_str` reads it.
pub open spec fn priority_of_input(s: Seq<char>) -> Option<Priority> {
    match u8_of_decimal(s) {
        Some(n) => if n == 1 {
            Some(Priority::Urgent)
        } else if n == 2 {
            Some(Priority::High)
        } else if n == 3 {
            Some(Priority::Medium)
        } else if n == 4 {
            Some(Priority::Low)
        } else {
            None
        },
        None => None,
    }
}

/// Position of a priority in the display order: `Urgent` ranks lowest and
/// therefore sorts first.
pub open spec fn priority_rank(p: Priority) -> int {
    match p {
        Priority::Urgent => 1,
        Priority::High => 2,
        Priority::Medium => 3,
        Priority::Low => 4,
    }
}

impl Priority {
    /// The executable twin of [`priority_rank`].
    pub fn rank(&self) -> (r: u8)
        ensures
            r as int == priority_rank(*self),
    {
        match self {
            Priority::Urgent => 1,
            Priority::High => 2,
            Priority::Medium => 3,
            Priority::Low => 4,
        }
    }

    /// Parse a numeric priority, defaulting to `Medium` on absent or
    /// unusable input.
    pub fn from_input(input: Option<String>) -> (r: Priority)
        ensures
            r == (match input.deep_view() {
                Some(s) => match priority_of_input(s) {
                    Some(p) => p,
                    None => Priority::Medium,
                },
                None => Priority::Medium,
            }),
    {
        match parse_priority(input) {
            Some(p) => p,
            None => Priority::Medium,
        }
    }
}

/// Parse a numeric priority: `None` input or unusable text yields `None`,
/// the silent-fallback policy of the codec.
pub fn parse_priority(input: Option<String>) -> (r: Option<Priority>)
    ensures
        r == (match input.deep_view() {
            Some(s) => priority_of_input(s),
            None => None,
        }),
{
    match input {
        Some(s) => match parse_u8_decimal(s.as_str()) {
            Some(n) => if n == 1 {
                Some(Priority::Urgent)
            } else if n == 2 {
                Some(Priority::High)
            } else if n == 3 {
                Some(Priority::Medium)
            } else if n == 4 {
                Some(Priority::Low)
            } else {
                None
            },
            None => None,
        },
        None => None,
    }
}

/// How many minimum-size work chunks remain. With a chunk size this is
/// deliberately the quotient plus one, even when the division is exact;
/// without one the task counts as a single indivisible chunk.
pub open spec fn chunks_spec(t: TaskView) -> int {
    match t.minimum_chunk_size {
        Some(c) => t.time_remaining as int / c as int + 1,
        None => 1,
    }
}

/// The executable twin of [`chunks_spec`]. A chunk size, when set, must be
/// positive, and the reported count must fit the return type.
pub fn chunks_remaining(task: &Task) -> (r: u32)
    requires
        task.minimum_chunk_size matches Some(c) ==> c > 0 && task.time_remaining as int / c as int
            + 1 <= u32::MAX as int,
    ensures
        r as int == chunks_spec(task@),
{
    match task.minimum_chunk_size {
        Some(c) => task.time_remaining / c + 1,
        None => 1,
    }
}

/// Whole minutes elapsed between two clock readings; a clock that ran
/// backwards counts as no time at all.
pub open spec fn elapsed_minutes_of(start: u64, end: u64) -> int {
    if end >= start {
        (end - start) / 60
    } else {
        0
    }
}

/// Clamp a non-negative mathematical integer into the `u32` range.
pub open spec fn cap_u32(x: int) -> int {
    if x > u32::MAX as int {
        u32::MAX as int
    } else {
        x
    }
}

/// The task after work starts at `now`: in progress, with one more, still
/// open, interval.
pub open spec fn start_spec(t: TaskView, now: u64) -> TaskView {
    TaskView {
        status: Status::InProgress,
        work_intervals: t.work_intervals.push(Interval { start: now, end: None }),
        ..t
    }
}

/// The task after work stops at `now`: on hold, the last interval closed
/// at `now`, elapsed time grown by the whole minutes worked and remaining
/// time shrunk by the same amount, floored at zero. Both time fields
/// saturate at the `u32` ceiling rather than wrap. A task with no recorded
/// interval only changes status.
pub open spec fn stop_spec(t: TaskView, now: u64) -> TaskView {
    if t.work_intervals.len() == 0 {
        TaskView { status: Status::OnHold, ..t }
    } else {
        let last = t.work_intervals.last();
        let m = cap_u32(elapsed_minutes_of(last.start, now));
        TaskView {
            status: Status::OnHold,
            work_intervals: t.work_intervals.update(
                t.work_intervals.len() - 1,
                Interval { start: last.start, end: Some(now) },
            ),
            elapsed_time: cap_u32(t.elapsed_time + m) as u32,
            time_remaining: (if t.time_remaining >= m {
                t.time_remaining - m
            } else {
                0
            }) as u32,
            ..t
        }
    }
}

/// The interval/status synchronization invariant: only the most recent
/// interval may be open, and the task is in progress exactly when it is.
pub open spec fn task_wf(t: TaskView) -> bool {
    &&& forall|i: int|
        0 <= i < t.work_intervals.len() - 1 ==> (#[trigger] t.work_intervals[i]).end is Some
    &&& (t.status == Status::InProgress <==> (t.work_intervals.len() > 0
        && t.work_intervals.last().end is None))
}

impl Task {
    /// A task is complete when no work time remains.
    pub fn is_complete(&self) -> (r: bool)
        ensures
            r == (self.time_remaining == 0),
    {
        self.time_remaining == 0
    }

    /// Start working at the given clock reading. Fails, leaving the task
    /// untouched, if work is already in progress.
    pub fn start_work_at(&mut self, now: u64) -> (r: Result<(), Error>)
        ensures
            old(self)@.status == Status::InProgress ==> r is Err && final(self)@ == old(self)@,
            old(self)@.status != Status::InProgress ==> r is Ok && final(self)@ == start_spec(
                old(self)@,
                now,
            ),
            r matches Err(e) ==> e matches Error::Generic(m) && m@
                == "Task is already in progress"@,
            task_wf(old(self)@) ==> task_wf(final(self)@),
    {
        if self.status == Status::InProgress {
            return Err(Error::Generic(String::from_str("Task is already in progress")));
        }
        self.status = Status::InProgress;
        self.work_intervals.push(Interval { start: now, end: None });
        proof {
            assert(self@ =~= start_spec(old(self)@, now));
        }
        Ok(())
    }

    /// Start working, reading the wall clock once. Fails, leaving the task
    /// untouched, if work is already in progress.
    pub fn start_work(&mut self) -> (r: Result<(), Error>)
        ensures
            old(self)@.status == Status::InProgress ==> r is Err && final(self)@ == old(self)@,
            old(self)@.status != Status::InProgress ==> r is Ok && (exists|now: u64|
                final(self)@ == start_spec(old(self)@, now)),
            r matches Err(e) ==> e matches Error::Generic(m) && m@
                == "Task is already in progress"@,
            task_wf(old(self)@) ==> task_wf(final(self)@),
    {
        let ts = now_seconds();
        let now: u64 = if ts < 0 {
            0
        } else {
            ts as u64
        };
        self.start_work_at(now)
    }

    /// Stop working at the given clock reading, closing the open interval
    /// and accounting its minutes. Fails, leaving the task untouched, if
    /// work is not in progress.
    pub fn stop_work_at(&mut self, now: u64) -> (r: Result<(), Error>)
        ensures
            old(self)@.status != Status::InProgress ==> r is Err && final(self)@ == old(self)@,
            old(self)@.status == Status::InProgress ==> r is Ok && final(self)@ == stop_spec(
                old(self)@,
                now,
            ),
            r matches Err(e) ==> e matches Error::Generic(m) && m@
                == "Task is not currently in progress"@,
            task_wf(old(self)@) ==> task_wf(final(self)@),
    {
        if self.status != Status::InProgress {
            return Err(Error::Generic(String::from_str("Task is not currently in progress")));
        }
        self.status = Status::OnHold;
        let n = self.work_intervals.len();
        if n > 0 {
            let last = self.work_intervals[n - 1];
            let start = last.start;
            self.work_intervals.set(n - 1, Interval { start, end: Some(now) });
            let diff: u64 = if now >= start {
                now - start
            } else {
                0
            };
            let mins: u64 = diff / 60;
            let m: u32 = if mins > u32::MAX as u64 {
                u32::MAX
            } else {
                mins as u32
            };
            self.elapsed_time = if self.elapsed_time > u32::MAX - m {
                u32::MAX
            } else {
                self.elapsed_time + m
            };
            self.time_remaining = if self.time_remaining >= m {
                self.time_remaining - m
            } else {
                0
            };
        }
        proof {
            assert(self@ =~= stop_spec(old(self)@, now));
        }
        Ok(())
    }

    /// Stop working, reading the wall clock once. Fails, leaving the task
    /// untouched, if work is not in progress.
    pub fn stop_work(&mut self) -> (r: Result<(), Error>)
        ensures
            old(self)@.status != Status::InProgress ==> r is Err && final(self)@ == old(self)@,
            old(self)@.status == Status::InProgress ==> r is Ok && (exists|now: u64|
                final(self)@ == stop_spec(old(self)@, now)),
            r matches Err(e) ==> e matches Error::Generic(m) && m@
                == "Task is not currently in progress"@,
            task_wf(old(self)@) ==> task_wf(final(self)@),
    {
        let ts = now_seconds();
        let now: u64 = if ts < 0 {
            0
        } else {
            ts as u64
        };
        self.stop_work_at(now)
    }
}

/// Starting work on a task that is not in progress marks it in progress
/// and appends exactly one interval, open and starting at `now`; nothing
/// else changes. A second start is then refused, because the task is in
/// progress.
pub proof fn lemma_start_work_once(t: TaskView, now: u64)
    requires
        t.status != Status::InProgress,
    ensures
        start_spec(t, now).status == Status::InProgress,
        start_spec(t, now).work_intervals.len() == t.work_intervals.len() + 1,
        start_spec(t, now).work_intervals.last() == (Interval { start: now, end: None::<u64> }),
        start_spec(t, now).work_intervals.subrange(0, t.work_intervals.len() as int)
            == t.work_intervals,
        start_spec(t, now).elapsed_time == t.elapsed_time,
        start_spec(t, now).time_remaining == t.time_remaining,
{
    assert(start_spec(t, now).work_intervals.subrange(0, t.work_intervals.len() as int)
        =~= t.work_intervals);
}

/// Stopping right after starting closes the started interval at the stop
/// reading; elapsed time grows by the whole minutes in between and
/// remaining time shrinks by the same amount, floored at zero. Stated for
/// a clock that did not run backwards and an elapsed total that does not
/// hit the `u32` ceiling.
pub proof fn lemma_start_stop_accounting(t: TaskView, s: u64, e: u64)
    requires
        t.status != Status::InProgress,
        s <= e,
        t.elapsed_time + (e - s) / 60 <= u32::MAX,
    ensures
        ({
            let m = (e - s) / 60;
            let r = stop_spec(start_spec(t, s), e);
            &&& r.status == Status::OnHold
            &&& r.work_intervals =~= t.work_intervals.push(
                Interval { start: s, end: Some(e) },
            )
            &&& r.elapsed_time == t.elapsed_time + m
            &&& r.time_remaining == (if t.time_remaining >= m {
                t.time_remaining - m
            } else {
                0
            })
        }),
{
    let started = start_spec(t, s);
    assert(started.work_intervals.last() == (Interval { start: s, end: None::<u64> }));
    assert(stop_spec(started, e).work_intervals =~= t.work_intervals.push(
        Interval { start: s, end: Some(e) },
    ));
}

} // verus!
