//! The timer-tick preemption decision.
//!
//! A tick preempts the running task only for a Ready task that strictly
//! outranks it; equal priority never preempts, and a tick that did not
//! interrupt a task never switches anything. The candidate is always the
//! task the dispatcher itself would select.

use vstd::prelude::*;
use crate::sched::{Priority, Scheduler, TaskId};

verus! {

/// What a timer tick decided.
#[derive(Debug, Clone, Copy, PartialEq, Eq, Structural)]
pub enum TickOutcome {
    /// No task was running on this stack; nothing is preempted.
    NoRunningTask,
    /// The running task still outranks everything Ready and keeps the CPU.
    Continue,
    /// This Ready task strictly outranks the running one and takes over.
    Preempt(TaskId),
}

/// The decision for a tick, given who runs and the best Ready candidate.
pub open spec fn tick_decision(
    running: Option<(TaskId, Priority)>,
    best_ready: Option<(TaskId, Priority)>,
) -> TickOutcome {
    match running {
        None => TickOutcome::NoRunningTask,
        Some((_, running_priority)) => match best_ready {
            Some((candidate, candidate_priority)) => if candidate_priority.value()
                > running_priority.value() {
                TickOutcome::Preempt(candidate)
            } else {
                TickOutcome::Continue
            },
            None => TickOutcome::Continue,
        },
    }
}

/// The preemption decision as a pure function of who is running and who
/// is the best Ready candidate.
pub fn tick_outcome(
    running: Option<(TaskId, Priority)>,
    best_ready: Option<(TaskId, Priority)>,
) -> (r: TickOutcome)
    ensures
        r == tick_decision(running, best_ready),
        running is None ==> r == TickOutcome::NoRunningTask,
        running matches Some(now) ==> match best_ready {
            Some(candidate) => if candidate.1.value() > now.1.value() {
                r == TickOutcome::Preempt(candidate.0)
            } else {
                r == TickOutcome::Continue
            },
            None => r == TickOutcome::Continue,
        },
{
    let running_priority = match running {
        Some((_, p)) => p,
        None => return TickOutcome::NoRunningTask,
    };
    match best_ready {
        Some((candidate, candidate_priority)) => {
            if candidate_priority.value() > running_priority.value() {
                TickOutcome::Preempt(candidate)
            } else {
                TickOutcome::Continue
            }
        },
        None => TickOutcome::Continue,
    }
}

/// `task` paired with its current priority, when it is live.
pub open spec fn with_live_priority<const N: usize>(
    scheduler: Scheduler<N>,
    task: Option<TaskId>,
) -> Option<(TaskId, Priority)> {
    match task {
        Some(t) => if scheduler.live(t) {
            Some((t, scheduler.tcb(t).effective()))
        } else {
            None
        },
        None => None,
    }
}

/// Decides a timer tick against `scheduler`: the running task (when it is
/// live) against whatever [`Scheduler::highest_priority_ready`] selects.
/// Reads the scheduler through a shared reference and changes nothing.
pub fn timer_tick_decision<const N: usize>(
    scheduler: &Scheduler<N>,
    running: Option<TaskId>,
) -> (r: TickOutcome)
    ensures
        exists|best: Option<TaskId>|
            {
                &&& (best is None <==> !crate::sched::any_ready(scheduler.slots()))
                &&& (best matches Some(id) ==> crate::sched::selected_slot(
                    scheduler.slots(),
                    id.0.index as int,
                ) && scheduler.live(id))
                &&& r == tick_decision(
                    with_live_priority(*scheduler, running),
                    with_live_priority(*scheduler, best),
                )
            },
{
    let running_now = match running {
        Some(task) => match scheduler.live_priority_of(task) {
            Some(p) => Some((task, p)),
            None => None,
        },
        None => None,
    };
    let best = scheduler.highest_priority_ready();
    let best_ready = match best {
        Some(task) => match scheduler.live_priority_of(task) {
            Some(p) => Some((task, p)),
            None => None,
        },
        None => None,
    };
    let r = tick_outcome(running_now, best_ready);
    assert(r == tick_decision(
        with_live_priority(*scheduler, running),
        with_live_priority(*scheduler, best),
    ));
    r
}

/// Equal priority never preempts, and neither does a lower one.
pub proof fn lemma_no_preemption_without_strictly_higher_priority(
    running: (TaskId, Priority),
    candidate: (TaskId, Priority),
)
    requires
        candidate.1.value() <= running.1.value(),
    ensures
        tick_decision(Some(running), Some(candidate)) == TickOutcome::Continue,
{
}

/// A Ready task that strictly outranks the running one always preempts it,
/// whatever the two priorities are.
pub proof fn lemma_strictly_higher_priority_always_preempts(
    running: (TaskId, Priority),
    candidate: (TaskId, Priority),
)
    requires
        candidate.1.value() > running.1.value(),
    ensures
        tick_decision(Some(running), Some(candidate)) == TickOutcome::Preempt(candidate.0),
{
}

/// With nothing Ready, a running task always keeps the CPU.
pub proof fn lemma_nothing_ready_never_preempts(running: (TaskId, Priority))
    ensures
        tick_decision(Some(running), None) == TickOutcome::Continue,
{
}

/// A tick that interrupted no task never preempts, whoever is Ready.
pub proof fn lemma_idle_tick_never_preempts(best_ready: Option<(TaskId, Priority)>)
    ensures
        tick_decision(None, best_ready) == TickOutcome::NoRunningTask,
{
}

} // verus!
