//! The board's one dispatched task: its declaration, and what a dispatch
//! round reports.
//!
//! A board scheduler holds [`BOARD_TASKS`] slots and runs a single task in
//! slot 0, paced by the timer tick from the idle loop. Preparing that task and
//! judging a round are decisions made here; the context switch and the
//! report's transport are the caller's.

use vstd::prelude::*;
use crate::mem::Pool;
use crate::sched::{
    OverrunPolicy,
    Priority,
    Scheduler,
    TaskEntry,
    TaskId,
    TaskState,
    Tcb,
    WcetBudgetTicks,
    fresh_tcb,
};

verus! {

/// Tasks the board scheduler holds. One is dispatched; the rest are headroom.
pub const BOARD_TASKS: usize = 4;

/// Bytes of stack for the dispatched task.
pub const BOARD_STACK_SIZE: usize = 4096;

/// Priority of the board task: mid-band, so later tasks can go either side.
pub const BOARD_PRIORITY: u8 = 11;

/// Declared execution budget of the board task, in ticks.
pub const BOARD_BUDGET_TICKS: u32 = 1000;

/// The task index reported when no task was dispatched. Zero is a real
/// index (the board task's own), so the sentinel is the largest value.
pub const NO_TASK: u16 = 65535;

/// How a dispatch round came out.
#[derive(Debug, Clone, Copy, PartialEq, Eq, Structural)]
pub enum RoundVerdict {
    /// A task ran and yielded back Ready.
    Dispatched,
    /// No task ran, or the task that ran did not come back Ready.
    Failed,
    /// The board was not initialised, so no round was attempted.
    Skipped,
}

/// What one dispatch round reports.
#[derive(Debug, Clone, Copy, PartialEq, Eq, Structural)]
pub struct RoundReport {
    /// The dispatched task's index, or [`NO_TASK`].
    pub task: u16,
    /// How the round came out.
    pub verdict: RoundVerdict,
    /// The value journalled alongside: the dispatched task's index, or zero.
    pub cost: u32,
}

/// The control block the board task is created with, at `priority`.
pub open spec fn board_tcb(entry: TaskEntry, priority: Priority) -> Tcb {
    fresh_tcb(
        priority,
        WcetBudgetTicks(BOARD_BUDGET_TICKS),
        OverrunPolicy::TripToSafeState,
        entry,
    )
}

/// Whether `i` is the lowest claimable slot of `scheduler`.
pub open spec fn first_claimable<const N: usize>(scheduler: &Scheduler<N>, i: int) -> bool {
    &&& 0 <= i < scheduler.slots().len()
    &&& scheduler.tasks.claimable(i)
    &&& forall|j: int| 0 <= j < i ==> !#[trigger] scheduler.tasks.claimable(j)
}

/// Creates the board task, entered at `entry`, and returns it when it landed
/// in slot 0, the slot the board dispatches.
///
/// The task is created at [`BOARD_PRIORITY`] with [`BOARD_BUDGET_TICKS`] and
/// the trip-to-safe-state policy in the lowest free slot; `None` when there
/// is none (nothing changes) or it is not slot 0 (the task stays created).
pub fn prepare_board_task(scheduler: &mut Scheduler<BOARD_TASKS>, entry: TaskEntry) -> (r: Option<
    TaskId,
>)
    ensures
        r is Some <==> (0 < old(scheduler).slots().len() && old(scheduler).tasks.claimable(0)),
        r matches Some(t) ==> {
            &&& t.0.index == 0
            &&& t.0.generation == old(scheduler).slots()[0].generation + 1
            &&& final(scheduler).live(t)
            &&& final(scheduler).tcb(t).base_priority.value() == BOARD_PRIORITY
            &&& final(scheduler).tcb(t) == board_tcb(entry, final(scheduler).tcb(t).base_priority)
        },
        !old(scheduler).tasks.has_claimable() ==> final(scheduler).slots() == old(
            scheduler,
        ).slots(),
        old(scheduler).tasks.has_claimable() ==> exists|i: int, p: Priority|
            #![trigger first_claimable(old(scheduler), i), p.value()]
            {
                &&& first_claimable(old(scheduler), i)
                &&& p.value() == BOARD_PRIORITY
                &&& final(scheduler).slots() == Pool::<Tcb, BOARD_TASKS>::claimed(
                    old(scheduler).slots(),
                    i,
                    board_tcb(entry, p),
                )
            },
{
    let priority = match Priority::try_new(BOARD_PRIORITY) {
        Ok(p) => p,
        Err(_) => return None,
    };
    let created = scheduler.create_task(
        priority,
        WcetBudgetTicks(BOARD_BUDGET_TICKS),
        OverrunPolicy::TripToSafeState,
        entry,
    );
    match created {
        Ok(task) => {
            proof {
                assert(first_claimable(old(scheduler), task.0.index as int));
                assert(priority.value() == BOARD_PRIORITY);
            }
            if task.index() == 0 {
                Some(task)
            } else {
                None
            }
        },
        Err(_) => None,
    }
}

/// The report of a dispatch round: skipped when the board was not
/// initialised; otherwise, when `ran` names the task that was dispatched,
/// its index with a verdict on whether it came back Ready (`state_after` is
/// its state once control returned), and when nothing was dispatched,
/// [`NO_TASK`] with a failed verdict.
pub fn round_report(initialised: bool, ran: Option<TaskId>, state_after: Option<TaskState>) -> (r:
    RoundReport)
    ensures
        !initialised ==> r == (RoundReport {
            task: NO_TASK,
            verdict: RoundVerdict::Skipped,
            cost: 0,
        }),
        initialised && ran is None ==> r == (RoundReport {
            task: NO_TASK,
            verdict: RoundVerdict::Failed,
            cost: 0,
        }),
        initialised && ran is Some ==> ({
            let index = ran->Some_0.0.index as u16;
            r == RoundReport {
                task: index,
                verdict: if state_after == Some(TaskState::Ready) {
                    RoundVerdict::Dispatched
                } else {
                    RoundVerdict::Failed
                },
                cost: index as u32,
            }
        }),
{
    if !initialised {
        return RoundReport { task: NO_TASK, verdict: RoundVerdict::Skipped, cost: 0 };
    }
    match ran {
        Some(task) => {
            let index = task.index() as u16;
            let ready = match state_after {
                Some(TaskState::Ready) => true,
                _ => false,
            };
            RoundReport {
                task: index,
                verdict: if ready {
                    RoundVerdict::Dispatched
                } else {
                    RoundVerdict::Failed
                },
                cost: index as u32,
            }
        },
        None => RoundReport { task: NO_TASK, verdict: RoundVerdict::Failed, cost: 0 },
    }
}

} // verus!
