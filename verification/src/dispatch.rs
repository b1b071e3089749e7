//! Priority-ordered cooperative dispatch decisions.
//!
//! One dispatch round selects the highest-priority Ready task, marks it
//! Running, transfers control into it (with or without installing its own
//! address space first), and, once control comes back, returns a task that
//! is still Running to Ready. The transfer itself is a register swap that
//! only the target can perform; the decisions on either side of it are
//! here.

use vstd::prelude::*;
use crate::sched::{Scheduler, TaskId, TaskState, Tcb, any_ready, selected_slot};

verus! {

/// How a dispatch round transfers control into the selected task.
#[derive(Debug, Clone, Copy, PartialEq, Eq, Structural)]
pub enum SwitchPlan {
    /// The task has no address space of its own: a plain register swap.
    Plain,
    /// Install this page-table root before the register swap.
    InstallAddressSpace(u64),
}

/// The transfer `address_space` calls for.
pub open spec fn plan_for(address_space: Option<u64>) -> SwitchPlan {
    match address_space {
        None => SwitchPlan::Plain,
        Some(cr3) => SwitchPlan::InstallAddressSpace(cr3),
    }
}

/// The transfer `address_space` calls for: plain when there is none,
/// otherwise an install of exactly that root.
pub fn switch_plan(address_space: Option<u64>) -> (plan: SwitchPlan)
    ensures
        plan == plan_for(address_space),
{
    match address_space {
        None => SwitchPlan::Plain,
        Some(cr3) => SwitchPlan::InstallAddressSpace(cr3),
    }
}

/// The first half of a dispatch round: selects the highest-priority Ready
/// task, marks it Running, and returns it with the transfer its address
/// space calls for; `None`, changing nothing, when no task is Ready.
pub fn dispatch_begin<const N: usize>(scheduler: &mut Scheduler<N>) -> (r: Option<
    (TaskId, SwitchPlan),
>)
    ensures
        r is None <==> !any_ready(old(scheduler).slots()),
        r is None ==> final(scheduler).slots() == old(scheduler).slots(),
        r matches Some((task, plan)) ==> {
            &&& selected_slot(old(scheduler).slots(), task.0.index as int)
            &&& old(scheduler).live(task)
            &&& plan == plan_for(old(scheduler).tcb(task).address_space)
            &&& final(scheduler).slots() == Scheduler::<N>::replaced(
                old(scheduler).slots(),
                task,
                Tcb { state: TaskState::Running, ..old(scheduler).tcb(task) },
            )
        },
{
    let task = match scheduler.highest_priority_ready() {
        Some(t) => t,
        None => return None,
    };
    let plan = switch_plan(
        match scheduler.address_space_of(task) {
            Some(space) => space,
            None => None,
        },
    );
    let _ = scheduler.set_state(task, TaskState::Running);
    Some((task, plan))
}

/// The second half of a dispatch round, once control is back: a task still
/// Running (it yielded, or was preempted) returns to Ready; a task whose
/// state was changed meanwhile, or that is gone, is left as it is.
pub fn dispatch_end<const N: usize>(scheduler: &mut Scheduler<N>, task: TaskId)
    ensures
        old(scheduler).live(task) && old(scheduler).tcb(task).state == TaskState::Running
            ==> final(scheduler).slots() == Scheduler::<N>::replaced(
            old(scheduler).slots(),
            task,
            Tcb { state: TaskState::Ready, ..old(scheduler).tcb(task) },
        ),
        !(old(scheduler).live(task) && old(scheduler).tcb(task).state == TaskState::Running)
            ==> final(scheduler).slots() == old(scheduler).slots(),
{
    if scheduler.state_of(task) == Some(TaskState::Running) {
        let _ = scheduler.set_state(task, TaskState::Ready);
    }
}

} // verus!
