//! The decisions of the cooperative task scheduler: which sleeping tasks
//! wake, whether a task may take a step, which waiting tasks a finished task
//! releases, which running tasks join the queue, and when the next sleeper
//! is due. The scheduler itself (running the tasks, reading the clock,
//! sleeping) is the caller's; deadlines and the current time are integers on
//! the caller's clock.

use vstd::prelude::*;

verus! {

/// What a task is doing, as far as scheduling goes.
#[derive(Debug, Clone, Copy, PartialEq, Eq, Structural)]
pub enum TaskPhase {
    /// Ready to take a step.
    Running,
    /// Waiting for the task with this id to finish.
    Waiting(u64),
    /// Asleep until this time.
    Sleeping(u64),
    /// Finished.
    Done,
    /// Failed.
    Failed,
}

/// The ids of the tasks of `ts` that satisfy `keep`, in order.
pub open spec fn select(ts: Seq<(u64, TaskPhase)>, keep: spec_fn((u64, TaskPhase)) -> bool) -> Seq<u64>
    decreases ts.len(),
{
    if ts.len() == 0 {
        Seq::empty()
    } else {
        let rest = select(ts.drop_last(), keep);
        if keep(ts.last()) { rest.push(ts.last().0) } else { rest }
    }
}

/// Whether a task sleeps until a time no later than `now`.
pub open spec fn due(t: (u64, TaskPhase), now: u64) -> bool {
    match t.1 {
        TaskPhase::Sleeping(until) => until <= now,
        _ => false,
    }
}

/// Whether a task waits for the task `id`.
pub open spec fn waits_for(t: (u64, TaskPhase), id: u64) -> bool {
    t.1 == TaskPhase::Waiting(id)
}

/// The phase of the first task of `ts` with id `id`, if any.
pub open spec fn phase_of(ts: Seq<(u64, TaskPhase)>, id: u64) -> Option<TaskPhase>
    decreases ts.len(),
{
    if ts.len() == 0 {
        None
    } else if ts[0].0 == id {
        Some(ts[0].1)
    } else {
        phase_of(ts.drop_first(), id)
    }
}

/// Whether the task `id` may take a step: it is running, or it waits for a
/// task that has finished, failed or is gone.
pub open spec fn may_step_spec(ts: Seq<(u64, TaskPhase)>, id: u64) -> bool {
    match phase_of(ts, id) {
        Some(TaskPhase::Running) => true,
        Some(TaskPhase::Waiting(w)) => match phase_of(ts, w) {
            Some(TaskPhase::Done) | Some(TaskPhase::Failed) | None => true,
            _ => false,
        },
        _ => false,
    }
}

/// The earliest time a task of `ts` sleeps until, if any sleeps.
pub open spec fn earliest_wake(ts: Seq<(u64, TaskPhase)>) -> Option<u64>
    decreases ts.len(),
{
    if ts.len() == 0 {
        None
    } else {
        let rest = earliest_wake(ts.drop_last());
        match ts.last().1 {
            TaskPhase::Sleeping(until) => match rest {
                Some(m) => Some(if until < m { until } else { m }),
                None => Some(until),
            },
            _ => rest,
        }
    }
}

/// The ids of the tasks whose sleep is over at time `now`, in order.
pub fn due_sleepers(tasks: &[(u64, TaskPhase)], now: u64) -> (r: Vec<u64>)
    ensures
        r@ == select(tasks@, |t: (u64, TaskPhase)| due(t, now)),
{
    let ghost keep = |t: (u64, TaskPhase)| due(t, now);
    let mut r: Vec<u64> = Vec::new();
    let mut i: usize = 0;
    while i < tasks.len()
        invariant
            0 <= i <= tasks.len(),
            r@ == select(tasks@.take(i as int), keep),
            keep == (|t: (u64, TaskPhase)| due(t, now)),
        decreases tasks.len() - i,
    {
        proof {
            assert(tasks@.take(i + 1).drop_last() =~= tasks@.take(i as int));
            assert(tasks@.take(i + 1).last() == tasks@[i as int]);
            assert(keep(tasks@[i as int]) == due(tasks@[i as int], now));
        }
        let (id, phase) = tasks[i];
        match phase {
            TaskPhase::Sleeping(until) => {
                if until <= now {
                    r.push(id);
                }
            },
            _ => {},
        }
        i = i + 1;
    }
    assert(tasks@.take(tasks.len() as int) =~= tasks@);
    r
}

/// The ids of the tasks that wait for the task `finished`, in order.
pub fn waiters_of(tasks: &[(u64, TaskPhase)], finished: u64) -> (r: Vec<u64>)
    ensures
        r@ == select(tasks@, |t: (u64, TaskPhase)| waits_for(t, finished)),
{
    let ghost keep = |t: (u64, TaskPhase)| waits_for(t, finished);
    let mut r: Vec<u64> = Vec::new();
    let mut i: usize = 0;
    while i < tasks.len()
        invariant
            0 <= i <= tasks.len(),
            r@ == select(tasks@.take(i as int), keep),
            keep == (|t: (u64, TaskPhase)| waits_for(t, finished)),
        decreases tasks.len() - i,
    {
        proof {
            assert(tasks@.take(i + 1).drop_last() =~= tasks@.take(i as int));
            assert(tasks@.take(i + 1).last() == tasks@[i as int]);
            assert(keep(tasks@[i as int]) == waits_for(tasks@[i as int], finished));
        }
        let (id, phase) = tasks[i];
        match phase {
            TaskPhase::Waiting(w) => {
                if w == finished {
                    r.push(id);
                }
            },
            _ => {},
        }
        i = i + 1;
    }
    assert(tasks@.take(tasks.len() as int) =~= tasks@);
    r
}

/// The phase of the task `id`, if there is one.
pub fn phase_of_task(tasks: &[(u64, TaskPhase)], id: u64) -> (r: Option<TaskPhase>)
    ensures
        r == phase_of(tasks@, id),
{
    let mut i: usize = 0;
    assert(tasks@.skip(0) =~= tasks@);
    while i < tasks.len()
        invariant
            0 <= i <= tasks.len(),
            phase_of(tasks@, id) == phase_of(tasks@.skip(i as int), id),
        decreases tasks.len() - i,
    {
        assert(tasks@.skip(i as int)[0] == tasks@[i as int]);
        assert(tasks@.skip(i as int).drop_first() =~= tasks@.skip(i + 1));
        if tasks[i].0 == id {
            return Some(tasks[i].1);
        }
        i = i + 1;
    }
    assert(tasks@.skip(i as int) =~= Seq::<(u64, TaskPhase)>::empty());
    None
}

/// Whether the task `id` may take a step now.
pub fn may_step(tasks: &[(u64, TaskPhase)], id: u64) -> (r: bool)
    ensures
        r == may_step_spec(tasks@, id),
{
    match phase_of_task(tasks, id) {
        Some(TaskPhase::Running) => true,
        Some(TaskPhase::Waiting(w)) => match phase_of_task(tasks, w) {
            Some(TaskPhase::Done) | Some(TaskPhase::Failed) | None => true,
            _ => false,
        },
        _ => false,
    }
}

/// The ids of the running tasks other than `skip` that are not in `queue`
/// yet, in order: the tasks to append to the queue.
pub fn running_not_queued(tasks: &[(u64, TaskPhase)], queue: &[u64], skip: Option<u64>) -> (r: Vec<u64>)
    ensures
        r@ == select(
            tasks@,
            |t: (u64, TaskPhase)| t.1 == TaskPhase::Running && skip != Some(t.0) && !queue@.contains(t.0),
        ),
{
    let ghost keep = |t: (u64, TaskPhase)| t.1 == TaskPhase::Running && skip != Some(t.0) && !queue@.contains(t.0);
    let mut r: Vec<u64> = Vec::new();
    let mut i: usize = 0;
    while i < tasks.len()
        invariant
            0 <= i <= tasks.len(),
            r@ == select(tasks@.take(i as int), keep),
            keep == (|t: (u64, TaskPhase)| t.1 == TaskPhase::Running && skip != Some(t.0) && !queue@.contains(t.0)),
        decreases tasks.len() - i,
    {
        proof {
            assert(tasks@.take(i + 1).drop_last() =~= tasks@.take(i as int));
            assert(tasks@.take(i + 1).last() == tasks@[i as int]);
            let t = tasks@[i as int];
            assert(keep(t) == (t.1 == TaskPhase::Running && skip != Some(t.0) && !queue@.contains(t.0)));
        }
        let (id, phase) = tasks[i];
        let skipped = match skip {
            Some(s) => s == id,
            None => false,
        };
        if phase == TaskPhase::Running && !skipped && !queued(queue, id) {
            r.push(id);
        }
        i = i + 1;
    }
    assert(tasks@.take(tasks.len() as int) =~= tasks@);
    r
}

/// Whether `id` is in `queue`.
fn queued(queue: &[u64], id: u64) -> (r: bool)
    ensures
        r == queue@.contains(id),
{
    let mut i: usize = 0;
    while i < queue.len()
        invariant
            0 <= i <= queue.len(),
            forall|j: int| 0 <= j < i ==> queue@[j] != id,
        decreases queue.len() - i,
    {
        if queue[i] == id {
            assert(queue@[i as int] == id);
            return true;
        }
        i = i + 1;
    }
    false
}

/// The earliest time a task sleeps until, if any task sleeps.
pub fn next_wake(tasks: &[(u64, TaskPhase)]) -> (r: Option<u64>)
    ensures
        r == earliest_wake(tasks@),
{
    let mut best: Option<u64> = None;
    let mut i: usize = 0;
    while i < tasks.len()
        invariant
            0 <= i <= tasks.len(),
            best == earliest_wake(tasks@.take(i as int)),
        decreases tasks.len() - i,
    {
        proof {
            assert(tasks@.take(i + 1).drop_last() =~= tasks@.take(i as int));
            assert(tasks@.take(i + 1).last() == tasks@[i as int]);
        }
        match tasks[i].1 {
            TaskPhase::Sleeping(until) => {
                best = match best {
                    Some(m) => Some(if until < m { until } else { m }),
                    None => Some(until),
                };
            },
            _ => {},
        }
        i = i + 1;
    }
    assert(tasks@.take(tasks.len() as int) =~= tasks@);
    best
}

/// What the scheduler does after the task `id` took a step that left it in
/// `outcome`: the main task (id 0) finishing or failing ends the run.
#[derive(Debug, Clone, Copy, PartialEq, Eq, Structural)]
pub enum AfterStep {
    /// Go on scheduling.
    Continue,
    /// The main task finished: the run is over.
    Finished,
    /// The main task failed: the run fails with its error.
    Failed,
}

/// The decision after the task `id` stepped into `outcome`.
pub fn after_step(id: u64, outcome: TaskPhase) -> (r: AfterStep)
    ensures
        r == (if id == 0 && outcome == TaskPhase::Done {
            AfterStep::Finished
        } else if id == 0 && outcome == TaskPhase::Failed {
            AfterStep::Failed
        } else {
            AfterStep::Continue
        }),
{
    if id == 0 {
        match outcome {
            TaskPhase::Done => AfterStep::Finished,
            TaskPhase::Failed => AfterStep::Failed,
            _ => AfterStep::Continue,
        }
    } else {
        AfterStep::Continue
    }
}

/// Whether the task `id` goes back to the queue after its step: it is still
/// running.
pub fn requeue(tasks: &[(u64, TaskPhase)], id: u64) -> (r: bool)
    ensures
        r == (phase_of(tasks@, id) == Some(TaskPhase::Running)),
{
    match phase_of_task(tasks, id) {
        Some(TaskPhase::Running) => true,
        _ => false,
    }
}

/// What the scheduler does when no task is queued.
#[derive(Debug, Clone, Copy, PartialEq, Eq, Structural)]
pub enum Idle {
    /// Wait until this time, then wake the due sleepers.
    Sleep(u64),
    /// Only tasks waiting for others remain: this many of them.
    Deadlock(u64),
    /// Nothing is left to run.
    Finished,
}

/// The number of tasks of `ts` that wait for another.
pub open spec fn waiting_count(ts: Seq<(u64, TaskPhase)>) -> nat
    decreases ts.len(),
{
    if ts.len() == 0 {
        0
    } else {
        waiting_count(ts.drop_last()) + if ts.last().1 is Waiting { 1nat } else { 0nat }
    }
}

/// The decision when the queue is empty: sleep until the earliest sleeper
/// is due, report a deadlock when tasks only wait, or finish.
pub fn when_idle(tasks: &[(u64, TaskPhase)]) -> (r: Idle)
    ensures
        r == (match earliest_wake(tasks@) {
            Some(t) => Idle::Sleep(t),
            None => if waiting_count(tasks@) > 0 {
                Idle::Deadlock(waiting_count(tasks@) as u64)
            } else {
                Idle::Finished
            },
        }),
{
    match next_wake(tasks) {
        Some(t) => Idle::Sleep(t),
        None => {
            let mut n: u64 = 0;
            let mut i: usize = 0;
            while i < tasks.len()
                invariant
                    0 <= i <= tasks.len(),
                    n == waiting_count(tasks@.take(i as int)),
                    n <= i,
                decreases tasks.len() - i,
            {
                proof {
                    assert(tasks@.take(i + 1).drop_last() =~= tasks@.take(i as int));
                    assert(tasks@.take(i + 1).last() == tasks@[i as int]);
                }
                match tasks[i].1 {
                    TaskPhase::Waiting(_) => {
                        n = n + 1;
                    },
                    _ => {},
                }
                i = i + 1;
            }
            assert(tasks@.take(tasks.len() as int) =~= tasks@);
            if n > 0 {
                Idle::Deadlock(n)
            } else {
                Idle::Finished
            }
        },
    }
}

} // verus!
