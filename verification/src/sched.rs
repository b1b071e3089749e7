//! Fixed-priority task bookkeeping.
//!
//! A `Scheduler<N>` keeps its task control blocks in a [`Pool`]`<Tcb, N>`,
//! so creating a task has the pool's bounded, fail-closed allocation
//! contract. Each task has its own (base) priority and, while it holds a
//! contended lock, an inherited one; the priority everything schedules by is
//! derived from the two on demand and never stored.

use vstd::prelude::*;
use crate::mem::{Pool, PoolError, PoolHandle, Slot, lemma_occupied_handles};

verus! {

/// Identifies a task created by [`Scheduler::create_task`]: the pool handle
/// of its control block.
#[derive(Debug, Clone, Copy, PartialEq, Eq, Structural)]
pub struct TaskId(pub PoolHandle);

impl TaskId {
    /// The pool-slot index behind the id, so a parallel array (one
    /// execution context per slot) can be keyed by task.
    pub fn index(self) -> (r: usize)
        ensures
            r == self.0.index,
    {
        self.0.index()
    }
}

/// A task's dispatch state.
#[derive(Debug, Clone, Copy, PartialEq, Eq, Structural)]
pub enum TaskState {
    /// Eligible to be selected and run next.
    Ready,
    /// The task the dispatcher last switched into.
    Running,
    /// Waiting on something; not selectable.
    Blocked,
    /// Will never run again; not selectable.
    Finished,
}

/// Lowest valid [`Priority`] value.
pub const PRIORITY_MIN: u8 = 0;

/// Highest valid [`Priority`] value: the whole priority space fits in five
/// bits.
pub const PRIORITY_MAX: u8 = 31;

/// A validated scheduling priority in `PRIORITY_MIN..=PRIORITY_MAX`; a
/// higher value is more urgent. Built only by [`Priority::try_new`].
#[derive(Debug, Clone, Copy, PartialEq, Eq, Structural, PartialOrd, Ord)]
pub struct Priority(u8);

impl Priority {
    /// The wrapped value.
    pub closed spec fn value_spec(self) -> u8 {
        self.0
    }

    /// Validates `value` and wraps it, refusing rather than clamping an
    /// out-of-range value.
    pub fn try_new(value: u8) -> (r: Result<Priority, PriorityError>)
        ensures
            value > PRIORITY_MAX ==> r == Err::<Priority, PriorityError>(PriorityError::OutOfRange),
            value <= PRIORITY_MAX ==> (r matches Ok(p) && p.value() == value),
    {
        if value > PRIORITY_MAX {
            Err(PriorityError::OutOfRange)
        } else {
            Ok(Priority(value))
        }
    }

    /// The wrapped, already validated value.
    #[verifier::when_used_as_spec(value_spec)]
    pub fn value(self) -> (r: u8)
        ensures
            r == self.value_spec(),
    {
        self.0
    }
}

/// Two priorities are equal exactly when their values are.
pub broadcast proof fn lemma_priority_value_determines(a: Priority, b: Priority)
    ensures
        (#[trigger] a.value() == #[trigger] b.value()) <==> a == b,
{
}

/// Errors [`Priority::try_new`] fails closed with.
#[derive(Debug, Clone, Copy, PartialEq, Eq, Structural)]
pub enum PriorityError {
    /// The value is above `PRIORITY_MAX`.
    OutOfRange,
}

/// A task's worst-case execution time budget, in timer ticks.
#[derive(Debug, Clone, Copy, PartialEq, Eq, Structural)]
pub struct WcetBudgetTicks(pub u32);

/// What a task declared must happen to it if it exceeds its
/// [`WcetBudgetTicks`]; declared at creation and never defaulted.
#[derive(Debug, Clone, Copy, PartialEq, Eq, Structural)]
pub enum OverrunPolicy {
    /// Re-initialise the task at its entry point and make it Ready again.
    Restart,
    /// Drop the task's own priority to this floor, which may not exceed its
    /// creation priority.
    Degrade(Priority),
    /// Finish the task and enter the system's declared safe state.
    TripToSafeState,
}

/// A task's entry point: the code address control is transferred to when
/// the task first runs.
#[derive(Debug, Clone, Copy, PartialEq, Eq, Structural)]
pub struct TaskEntry(pub usize);

/// A task control block.
#[derive(Debug, Clone, Copy)]
pub struct Tcb {
    /// The task's own priority.
    pub base_priority: Priority,
    /// The highest priority inherited from a waiter on a lock the task
    /// holds, or `None`.
    pub inherited_priority: Option<Priority>,
    /// The declared execution budget.
    pub wcet_budget: WcetBudgetTicks,
    /// The declared consequence of exceeding the budget.
    pub overrun_policy: OverrunPolicy,
    /// The entry point.
    pub entry: TaskEntry,
    /// Ticks attributed to the task since its last budget-window reset.
    pub ticks_consumed: u32,
    /// The dispatch state.
    pub state: TaskState,
    /// The task's own address space (a page-table root), or `None`.
    pub address_space: Option<u64>,
}

impl Tcb {
    /// The priority the task is scheduled by: the larger of its base and
    /// inherited priorities.
    pub open spec fn effective(&self) -> Priority {
        match self.inherited_priority {
            Some(inherited) => if inherited.value() > self.base_priority.value() {
                inherited
            } else {
                self.base_priority
            },
            None => self.base_priority,
        }
    }

    /// The priority the task is scheduled by, derived on every call:
    /// inheritance can raise it and never lower it.
    #[verifier::when_used_as_spec(effective)]
    pub fn priority(&self) -> (r: Priority)
        ensures
            r == self.effective(),
    {
        match self.inherited_priority {
            Some(inherited) => {
                if inherited.value() > self.base_priority.value() {
                    inherited
                } else {
                    self.base_priority
                }
            },
            None => self.base_priority,
        }
    }

    /// The task's own priority, ignoring inheritance.
    pub fn base_priority(&self) -> (r: Priority)
        ensures
            r == self.base_priority,
    {
        self.base_priority
    }

    /// The inherited priority, or `None`.
    pub fn inherited_priority(&self) -> (r: Option<Priority>)
        ensures
            r == self.inherited_priority,
    {
        self.inherited_priority
    }

    /// The declared budget.
    pub fn wcet_budget(&self) -> (r: WcetBudgetTicks)
        ensures
            r == self.wcet_budget,
    {
        self.wcet_budget
    }

    /// The declared overrun policy.
    pub fn overrun_policy(&self) -> (r: OverrunPolicy)
        ensures
            r == self.overrun_policy,
    {
        self.overrun_policy
    }

    /// The dispatch state.
    pub fn state(&self) -> (r: TaskState)
        ensures
            r == self.state,
    {
        self.state
    }

    /// The entry point.
    pub fn entry(&self) -> (r: TaskEntry)
        ensures
            r == self.entry,
    {
        self.entry
    }

    /// Ticks consumed in the current budget window.
    pub fn ticks_consumed(&self) -> (r: u32)
        ensures
            r == self.ticks_consumed,
    {
        self.ticks_consumed
    }

    /// The address space, or `None`.
    pub fn address_space(&self) -> (r: Option<u64>)
        ensures
            r == self.address_space,
    {
        self.address_space
    }
}

/// Errors [`Scheduler::create_task`] fails closed with; neither leaves a
/// side effect.
#[derive(Debug, Clone, Copy, PartialEq, Eq, Structural)]
pub enum TaskCreateError {
    /// Every task slot is occupied.
    Exhausted,
    /// The declared degrade floor is above the task's own priority.
    DegradeFloorAbovePriority,
}

impl From<PoolError> for TaskCreateError {
    fn from(err: PoolError) -> (r: Self) {
        match err {
            PoolError::Exhausted => TaskCreateError::Exhausted,
            PoolError::InvalidHandle => TaskCreateError::Exhausted,
        }
    }
}

impl vstd::std_specs::convert::FromSpecImpl<PoolError> for TaskCreateError {
    open spec fn obeys_from_spec() -> bool {
        true
    }

    open spec fn from_spec(v: PoolError) -> Self {
        TaskCreateError::Exhausted
    }
}

/// The control block a newly created task starts with: Ready, nothing
/// inherited, nothing consumed, no address space.
pub open spec fn fresh_tcb(
    priority: Priority,
    wcet_budget: WcetBudgetTicks,
    overrun_policy: OverrunPolicy,
    entry: TaskEntry,
) -> Tcb {
    Tcb {
        base_priority: priority,
        inherited_priority: None,
        wcet_budget,
        overrun_policy,
        entry,
        ticks_consumed: 0,
        state: TaskState::Ready,
        address_space: None,
    }
}

/// Whether `policy` declares a degrade floor above `priority`.
pub open spec fn floor_above(policy: OverrunPolicy, priority: Priority) -> bool {
    match policy {
        OverrunPolicy::Degrade(floor) => floor.value() > priority.value(),
        _ => false,
    }
}

/// Whether slot `i` of `slots` holds a Ready task.
pub open spec fn ready_slot(slots: Seq<Slot<Tcb>>, i: int) -> bool {
    &&& slots[i].value is Some
    &&& slots[i].value->Some_0.state == TaskState::Ready
}

/// The effective priority value of the task in slot `i`.
pub open spec fn slot_priority(slots: Seq<Slot<Tcb>>, i: int) -> u8 {
    slots[i].value->Some_0.effective().value()
}

/// Whether slot `i` is the one selection picks: a Ready task at the highest
/// effective priority among Ready tasks, and the last such slot in index
/// (creation) order.
pub open spec fn selected_slot(slots: Seq<Slot<Tcb>>, i: int) -> bool {
    &&& 0 <= i < slots.len()
    &&& ready_slot(slots, i)
    &&& forall|j: int|
        0 <= j < slots.len() && #[trigger] ready_slot(slots, j) ==> slot_priority(slots, j)
            <= slot_priority(slots, i)
    &&& forall|j: int|
        i < j < slots.len() && #[trigger] ready_slot(slots, j) ==> slot_priority(slots, j)
            < slot_priority(slots, i)
}

/// Whether any slot holds a Ready task.
pub open spec fn any_ready(slots: Seq<Slot<Tcb>>) -> bool {
    exists|i: int| 0 <= i < slots.len() && #[trigger] ready_slot(slots, i)
}

/// Fixed-priority task bookkeeping backed by a bounded `Pool<Tcb, N>`.
pub struct Scheduler<const N: usize> {
    /// The task control blocks.
    pub tasks: Pool<Tcb, N>,
}

impl<const N: usize> Scheduler<N> {
    /// The task slots.
    pub open spec fn slots(&self) -> Seq<Slot<Tcb>> {
        self.tasks.slots@
    }

    /// Whether `task` identifies a live task.
    pub open spec fn live(&self, task: TaskId) -> bool {
        self.tasks.live(task.0)
    }

    /// The control block of `task` (meaningful when it is live).
    pub open spec fn tcb(&self, task: TaskId) -> Tcb {
        self.tasks.value_of(task.0)
    }

    /// `slots` with the control block of `task` replaced by `tcb`.
    pub open spec fn replaced(slots: Seq<Slot<Tcb>>, task: TaskId, tcb: Tcb) -> Seq<Slot<Tcb>> {
        slots.update(task.0.index as int, Slot { value: Some(tcb), generation: task.0.generation })
    }

    /// Whether every task live both in `before` and in `after` declares the
    /// same overrun policy in both: a task's policy is fixed for its life.
    pub open spec fn policies_kept(before: Seq<Slot<Tcb>>, after: Seq<Slot<Tcb>>) -> bool {
        forall|task: TaskId|
            #![trigger Pool::<Tcb, N>::live_in(before, task.0), Pool::<Tcb, N>::live_in(after, task.0)]
            Pool::<Tcb, N>::live_in(before, task.0) && Pool::<Tcb, N>::live_in(after, task.0)
                ==> Pool::<Tcb, N>::value_in(after, task.0).overrun_policy == Pool::<Tcb, N>::value_in(
                before,
                task.0,
            ).overrun_policy
    }

    /// A scheduler with no tasks.
    pub fn new() -> (s: Self)
        ensures
            s.slots().len() == N,
            forall|i: int|
                0 <= i < N ==> (#[trigger] s.slots()[i]).value is None && s.slots()[i].generation
                    == 0,
    {
        Scheduler { tasks: Pool::new() }
    }

    /// Creates a Ready task with the given priority, budget, overrun policy
    /// and entry point, in the first free task slot.
    ///
    /// Refuses with [`TaskCreateError::DegradeFloorAbovePriority`] before
    /// claiming anything when the degrade floor outranks `priority`, and with
    /// [`TaskCreateError::Exhausted`] when no slot can be claimed; neither
    /// refusal changes anything.
    pub fn create_task(
        &mut self,
        priority: Priority,
        wcet_budget: WcetBudgetTicks,
        overrun_policy: OverrunPolicy,
        entry: TaskEntry,
    ) -> (r: Result<TaskId, TaskCreateError>)
        ensures
            Self::policies_kept(old(self).slots(), final(self).slots()),
            floor_above(overrun_policy, priority) ==> {
                &&& r == Err::<TaskId, TaskCreateError>(TaskCreateError::DegradeFloorAbovePriority)
                &&& final(self).slots() == old(self).slots()
            },
            !floor_above(overrun_policy, priority) ==> match r {
                Ok(id) => {
                    &&& id.0.index < old(self).slots().len()
                    &&& old(self).tasks.claimable(id.0.index as int)
                    &&& forall|j: int|
                        0 <= j < id.0.index ==> !#[trigger] old(self).tasks.claimable(j)
                    &&& id.0.generation == old(self).slots()[id.0.index as int].generation + 1
                    &&& final(self).slots() == Pool::<Tcb, N>::claimed(
                        old(self).slots(),
                        id.0.index as int,
                        fresh_tcb(priority, wcet_budget, overrun_policy, entry),
                    )
                },
                Err(e) => {
                    &&& e == TaskCreateError::Exhausted
                    &&& !old(self).tasks.has_claimable()
                    &&& final(self).slots() == old(self).slots()
                },
            },
    {
        if let OverrunPolicy::Degrade(floor) = overrun_policy {
            if floor.value() > priority.value() {
                return Err(TaskCreateError::DegradeFloorAbovePriority);
            }
        }
        let tcb = Tcb {
            base_priority: priority,
            inherited_priority: None,
            wcet_budget,
            overrun_policy,
            entry,
            ticks_consumed: 0,
            state: TaskState::Ready,
            address_space: None,
        };
        match self.tasks.allocate(tcb) {
            Ok(handle) => Ok(TaskId(handle)),
            Err(_) => Err(TaskCreateError::Exhausted),
        }
    }

    /// Attaches `cr3` to `task` as its address space; `None`, with no side
    /// effect, when `task` is not live.
    pub fn set_address_space(&mut self, task: TaskId, cr3: u64) -> (r: Option<()>)
        ensures
            Self::policies_kept(old(self).slots(), final(self).slots()),
            old(self).live(task) ==> {
                &&& r == Some(())
                &&& final(self).slots() == Self::replaced(
                    old(self).slots(),
                    task,
                    Tcb { address_space: Some(cr3), ..old(self).tcb(task) },
                )
            },
            !old(self).live(task) ==> r is None && final(self).slots() == old(self).slots(),
    {
        match self.tasks.get_mut(task.0) {
            Some(tcb) => {
                tcb.address_space = Some(cr3);
                Some(())
            },
            None => None,
        }
    }

    /// The current (possibly inherited) priority of `task`, or `None` when
    /// `task` is not live. Changes nothing.
    pub fn priority_of(&mut self, task: TaskId) -> (r: Option<Priority>)
        ensures
            Self::policies_kept(old(self).slots(), final(self).slots()),
            final(self).slots() == old(self).slots(),
            old(self).live(task) ==> r == Some(old(self).tcb(task).effective()),
            !old(self).live(task) ==> r is None,
    {
        match self.tasks.get(task.0) {
            Some(tcb) => Some(tcb.priority()),
            None => None,
        }
    }

    /// Sets `task`'s own priority, leaving any inherited priority in place,
    /// so it cannot cancel a boost; `None`, with no side effect, when `task`
    /// is not live.
    pub fn set_base_priority(&mut self, task: TaskId, priority: Priority) -> (r: Option<()>)
        ensures
            Self::policies_kept(old(self).slots(), final(self).slots()),
            old(self).live(task) ==> {
                &&& r == Some(())
                &&& final(self).slots() == Self::replaced(
                    old(self).slots(),
                    task,
                    Tcb { base_priority: priority, ..old(self).tcb(task) },
                )
            },
            !old(self).live(task) ==> r is None && final(self).slots() == old(self).slots(),
    {
        match self.tasks.get_mut(task.0) {
            Some(tcb) => {
                tcb.base_priority = priority;
                Some(())
            },
            None => None,
        }
    }

    /// Raises what `task` inherits to `priority` when that is higher than
    /// what it already inherits (or it inherits nothing); otherwise leaves it.
    /// Never touches the task's own priority. `None`, with no side effect,
    /// when `task` is not live.
    pub fn inherit_priority(&mut self, task: TaskId, priority: Priority) -> (r: Option<()>)
        ensures
            Self::policies_kept(old(self).slots(), final(self).slots()),
            old(self).live(task) ==> {
                &&& r == Some(())
                &&& final(self).slots() == Self::replaced(
                    old(self).slots(),
                    task,
                    Tcb {
                        inherited_priority: raised(old(self).tcb(task).inherited_priority, priority),
                        ..old(self).tcb(task)
                    },
                )
            },
            !old(self).live(task) ==> r is None && final(self).slots() == old(self).slots(),
    {
        match self.tasks.get_mut(task.0) {
            Some(tcb) => {
                let raise = match tcb.inherited_priority {
                    Some(current) => priority.value() > current.value(),
                    None => true,
                };
                if raise {
                    tcb.inherited_priority = Some(priority);
                }
                Some(())
            },
            None => None,
        }
    }

    /// Drops everything `task` inherits and returns the priority it falls
    /// back to, its current own priority; `None`, with no side effect, when
    /// `task` is not live.
    pub fn release_inheritance(&mut self, task: TaskId) -> (r: Option<Priority>)
        ensures
            Self::policies_kept(old(self).slots(), final(self).slots()),
            old(self).live(task) ==> {
                &&& r == Some(old(self).tcb(task).base_priority)
                &&& final(self).slots() == Self::replaced(
                    old(self).slots(),
                    task,
                    Tcb { inherited_priority: None, ..old(self).tcb(task) },
                )
            },
            !old(self).live(task) ==> r is None && final(self).slots() == old(self).slots(),
    {
        match self.tasks.get_mut(task.0) {
            Some(tcb) => {
                tcb.inherited_priority = None;
                Some(tcb.base_priority)
            },
            None => None,
        }
    }

    /// `task`'s `(ticks_consumed, wcet_budget)`, or `None` when it is not
    /// live. Changes nothing.
    pub fn wcet_state(&mut self, task: TaskId) -> (r: Option<(u32, WcetBudgetTicks)>)
        ensures
            Self::policies_kept(old(self).slots(), final(self).slots()),
            final(self).slots() == old(self).slots(),
            old(self).live(task) ==> r == Some(
                (old(self).tcb(task).ticks_consumed, old(self).tcb(task).wcet_budget),
            ),
            !old(self).live(task) ==> r is None,
    {
        match self.tasks.get(task.0) {
            Some(tcb) => Some((tcb.ticks_consumed, tcb.wcet_budget)),
            None => None,
        }
    }

    /// Attributes `ticks` more consumption to `task`, saturating, and
    /// returns the new total; `None`, with no side effect, when `task` is
    /// not live.
    pub fn add_ticks_consumed(&mut self, task: TaskId, ticks: u32) -> (r: Option<u32>)
        ensures
            Self::policies_kept(old(self).slots(), final(self).slots()),
            old(self).live(task) ==> {
                let total = saturating_add_u32(old(self).tcb(task).ticks_consumed, ticks);
                &&& r == Some(total)
                &&& final(self).slots() == Self::replaced(
                    old(self).slots(),
                    task,
                    Tcb { ticks_consumed: total, ..old(self).tcb(task) },
                )
            },
            !old(self).live(task) ==> r is None && final(self).slots() == old(self).slots(),
    {
        match self.tasks.get_mut(task.0) {
            Some(tcb) => {
                tcb.ticks_consumed = tcb.ticks_consumed.saturating_add(ticks);
                Some(tcb.ticks_consumed)
            },
            None => None,
        }
    }

    /// Starts a fresh budget window for `task`; `None`, with no side effect,
    /// when `task` is not live.
    pub fn reset_ticks_consumed(&mut self, task: TaskId) -> (r: Option<()>)
        ensures
            Self::policies_kept(old(self).slots(), final(self).slots()),
            old(self).live(task) ==> {
                &&& r == Some(())
                &&& final(self).slots() == Self::replaced(
                    old(self).slots(),
                    task,
                    Tcb { ticks_consumed: 0, ..old(self).tcb(task) },
                )
            },
            !old(self).live(task) ==> r is None && final(self).slots() == old(self).slots(),
    {
        match self.tasks.get_mut(task.0) {
            Some(tcb) => {
                tcb.ticks_consumed = 0;
                Some(())
            },
            None => None,
        }
    }

    /// Removes `task` from the scheduler, so that its id no longer
    /// identifies a live task (for exercising the fail-closed paths).
    pub fn free_task_for_test(&mut self, task: TaskId)
        ensures
            Self::policies_kept(old(self).slots(), final(self).slots()),
            old(self).live(task) ==> final(self).slots() == Pool::<Tcb, N>::released(
                old(self).slots(),
                task.0.index as int,
            ),
            !old(self).live(task) ==> final(self).slots() == old(self).slots(),
            !final(self).live(task),
    {
        let _ = self.tasks.free(task.0);
    }

    /// `task`'s address space (the inner option), or the outer `None` when
    /// `task` is not live.
    pub fn address_space_of(&self, task: TaskId) -> (r: Option<Option<u64>>)
        ensures
            self.live(task) ==> r == Some(self.tcb(task).address_space),
            !self.live(task) ==> r is None,
    {
        match self.tasks.get(task.0) {
            Some(tcb) => Some(tcb.address_space),
            None => None,
        }
    }

    /// `task`'s current (possibly inherited) priority through a shared
    /// reference, or `None` when `task` is not live.
    pub fn live_priority_of(&self, task: TaskId) -> (r: Option<Priority>)
        ensures
            self.live(task) ==> r == Some(self.tcb(task).effective()),
            !self.live(task) ==> r is None,
    {
        match self.tasks.get(task.0) {
            Some(tcb) => Some(tcb.priority()),
            None => None,
        }
    }

    /// `task`'s own priority, ignoring inheritance, or `None` when it is not
    /// live. Changes nothing.
    pub fn base_priority_of(&mut self, task: TaskId) -> (r: Option<Priority>)
        ensures
            Self::policies_kept(old(self).slots(), final(self).slots()),
            final(self).slots() == old(self).slots(),
            old(self).live(task) ==> r == Some(old(self).tcb(task).base_priority),
            !old(self).live(task) ==> r is None,
    {
        match self.tasks.get(task.0) {
            Some(tcb) => Some(tcb.base_priority()),
            None => None,
        }
    }

    /// What `task` inherits (the inner option), or the outer `None` when it
    /// is not live. Changes nothing.
    pub fn inherited_priority_of(&mut self, task: TaskId) -> (r: Option<Option<Priority>>)
        ensures
            Self::policies_kept(old(self).slots(), final(self).slots()),
            final(self).slots() == old(self).slots(),
            old(self).live(task) ==> r == Some(old(self).tcb(task).inherited_priority),
            !old(self).live(task) ==> r is None,
    {
        match self.tasks.get(task.0) {
            Some(tcb) => Some(tcb.inherited_priority()),
            None => None,
        }
    }

    /// The overrun policy `task` declared, or `None` when it is not live.
    pub fn overrun_policy_of(&self, task: TaskId) -> (r: Option<OverrunPolicy>)
        ensures
            self.live(task) ==> r == Some(self.tcb(task).overrun_policy),
            !self.live(task) ==> r is None,
    {
        match self.tasks.get(task.0) {
            Some(tcb) => Some(tcb.overrun_policy),
            None => None,
        }
    }

    /// `task`'s dispatch state, or `None` when it is not live.
    pub fn state_of(&self, task: TaskId) -> (r: Option<TaskState>)
        ensures
            self.live(task) ==> r == Some(self.tcb(task).state),
            !self.live(task) ==> r is None,
    {
        match self.tasks.get(task.0) {
            Some(tcb) => Some(tcb.state),
            None => None,
        }
    }

    /// Sets `task`'s dispatch state; `None`, with no side effect, when it is
    /// not live.
    pub fn set_state(&mut self, task: TaskId, state: TaskState) -> (r: Option<()>)
        ensures
            Self::policies_kept(old(self).slots(), final(self).slots()),
            old(self).live(task) ==> {
                &&& r == Some(())
                &&& final(self).slots() == Self::replaced(
                    old(self).slots(),
                    task,
                    Tcb { state, ..old(self).tcb(task) },
                )
            },
            !old(self).live(task) ==> r is None && final(self).slots() == old(self).slots(),
    {
        match self.tasks.get_mut(task.0) {
            Some(tcb) => {
                tcb.state = state;
                Some(())
            },
            None => None,
        }
    }

    /// Every live task's id alongside its control block, in slot order.
    pub fn iter_tasks(&self) -> (r: Vec<(TaskId, &Tcb)>)
        ensures
            r@.len() == Pool::<Tcb, N>::occupied_handles(self.slots()).len(),
            forall|k: int|
                0 <= k < r@.len() ==> {
                    &&& ((#[trigger] r@[k]).0).0 == Pool::<Tcb, N>::occupied_handles(
                        self.slots(),
                    )[k]
                    &&& self.live(r@[k].0)
                    &&& *r@[k].1 == self.tcb(r@[k].0)
                },
            forall|k1: int, k2: int|
                0 <= k1 < k2 < r@.len() ==> ((#[trigger] r@[k1]).0).0.index < ((
                #[trigger] r@[k2]).0).0.index,
            forall|task: TaskId| #[trigger]
                self.live(task) ==> exists|k: int| 0 <= k < r@.len() && (#[trigger] r@[k]).0 == task,
    {
        let slot_count: usize = self.tasks.slots.len();
        proof {
            assert(self.slots().len() == slot_count);
            lemma_occupied_handles::<Tcb, N>(self.slots());
        }
        let occupied = self.tasks.iter_occupied();
        let mut out: Vec<(TaskId, &Tcb)> = Vec::new();
        let mut k: usize = 0;
        while k < occupied.len()
            invariant
                k <= occupied@.len(),
                occupied@.len() == Pool::<Tcb, N>::occupied_handles(self.slots()).len(),
                forall|m: int|
                    0 <= m < occupied@.len() ==> {
                        &&& (#[trigger] occupied@[m]).0 == Pool::<Tcb, N>::occupied_handles(
                            self.slots(),
                        )[m]
                        &&& self.tasks.live(occupied@[m].0)
                        &&& *occupied@[m].1 == self.tasks.value_of(occupied@[m].0)
                    },
                out@.len() == k,
                forall|m: int|
                    0 <= m < k ==> {
                        &&& ((#[trigger] out@[m]).0).0 == occupied@[m].0
                        &&& *out@[m].1 == *occupied@[m].1
                    },
            decreases occupied@.len() - k,
        {
            let (handle, tcb) = occupied[k];
            out.push((TaskId(handle), tcb));
            k = k + 1;
        }
        proof {
            let handles = Pool::<Tcb, N>::occupied_handles(self.slots());
            assert forall|task: TaskId| #[trigger] self.live(task) implies exists|k: int|
                0 <= k < out@.len() && (#[trigger] out@[k]).0 == task by {
                let i = task.0.index as int;
                assert(self.slots()[i].value is Some);
                let k = choose|k: int| 0 <= k < handles.len() && (#[trigger] handles[k]).index == i;
                assert(Pool::<Tcb, N>::live_in(self.slots(), handles[k]));
                assert(handles[k] == task.0);
                assert(out@[k].0 == task);
            }
        }
        out
    }

    /// The highest-priority Ready task, or `None` when no task is Ready.
    ///
    /// Ranks by effective priority, so a boosted lock holder outranks a
    /// task its own priority is below. Among tied tasks the one in the
    /// highest slot (the most recently created, in creation order) wins.
    pub fn highest_priority_ready(&self) -> (r: Option<TaskId>)
        ensures
            r is None <==> !any_ready(self.slots()),
            r matches Some(id) ==> {
                &&& selected_slot(self.slots(), id.0.index as int)
                &&& id.0.generation == self.slots()[id.0.index as int].generation
                &&& self.live(id)
            },
    {
        let slots = &self.tasks.slots;
        let mut best: Option<(usize, u8)> = None;
        let mut i: usize = 0;
        while i < slots.len()
            invariant
                i <= slots@.len(),
                slots@ == self.slots(),
                best is None ==> forall|j: int| 0 <= j < i ==> !#[trigger] ready_slot(slots@, j),
                best matches Some(b) ==> {
                    &&& b.0 < i
                    &&& ready_slot(slots@, b.0 as int)
                    &&& b.1 == slot_priority(slots@, b.0 as int)
                    &&& forall|j: int|
                        0 <= j < i && #[trigger] ready_slot(slots@, j) ==> slot_priority(slots@, j)
                            <= b.1
                    &&& forall|j: int|
                        b.0 < j < i && #[trigger] ready_slot(slots@, j) ==> slot_priority(
                            slots@,
                            j,
                        ) < b.1
                },
            decreases slots@.len() - i,
        {
            match &slots[i].value {
                Some(tcb) => {
                    if tcb.state == TaskState::Ready {
                        let p = tcb.priority().value();
                        let better = match best {
                            Some((_, best_priority)) => p >= best_priority,
                            None => true,
                        };
                        if better {
                            best = Some((i, p));
                        }
                    }
                },
                None => {},
            }
            i = i + 1;
        }
        match best {
            Some((index, _)) => Some(TaskId(PoolHandle { index, generation: slots[index].generation })),
            None => None,
        }
    }
}

impl<const N: usize> Default for Scheduler<N> {
    fn default() -> (s: Self)
        ensures
            s.slots().len() == N,
            forall|i: int|
                0 <= i < N ==> (#[trigger] s.slots()[i]).value is None && s.slots()[i].generation
                    == 0,
    {
        Self::new()
    }
}


/// Selection is deterministic: at most one slot is the selected one.
pub proof fn lemma_selection_is_unique(slots: Seq<Slot<Tcb>>, i: int, j: int)
    requires
        selected_slot(slots, i),
        selected_slot(slots, j),
    ensures
        i == j,
{
    if i < j {
        assert(slot_priority(slots, j) < slot_priority(slots, i));
        assert(slot_priority(slots, i) <= slot_priority(slots, j));
    } else if j < i {
        assert(slot_priority(slots, i) < slot_priority(slots, j));
        assert(slot_priority(slots, j) <= slot_priority(slots, i));
    }
}

/// A waiter's arrival never lowers a holder's effective priority, and
/// afterwards the holder runs at least at the waiter's priority.
pub proof fn lemma_inheritance_only_raises(tcb: Tcb, waiter: Priority)
    ensures
        ({
            let boosted = (Tcb { inherited_priority: raised(tcb.inherited_priority, waiter), ..tcb });
            &&& boosted.effective().value() >= tcb.effective().value()
            &&& boosted.effective().value() >= waiter.value()
            &&& boosted.base_priority == tcb.base_priority
        }),
{
}

/// Once inheritance is released, a task is scheduled at exactly its own
/// priority.
pub proof fn lemma_release_restores_base(tcb: Tcb)
    ensures
        (Tcb { inherited_priority: None, ..tcb }).effective() == tcb.base_priority,
{
}

/// Changing a task's own priority cannot cancel a boost: while something is
/// inherited, the task runs at least at that inherited priority.
pub proof fn lemma_base_change_keeps_boost(tcb: Tcb, base: Priority)
    ensures
        (tcb.inherited_priority matches Some(inherited) ==> (Tcb {
            base_priority: base,
            ..tcb
        }).effective().value() >= inherited.value()),
        (Tcb { base_priority: base, ..tcb }).effective().value() >= base.value(),
{
}

/// What an inherited priority becomes when a waiter at `priority` arrives:
/// raised to it when higher (or when nothing is inherited), else unchanged.
pub open spec fn raised(current: Option<Priority>, priority: Priority) -> Option<Priority> {
    match current {
        Some(c) => if priority.value() > c.value() {
            Some(priority)
        } else {
            Some(c)
        },
        None => Some(priority),
    }
}

/// `a + b`, saturating at `u32::MAX`.
pub open spec fn saturating_add_u32(a: u32, b: u32) -> u32 {
    if a + b > u32::MAX {
        u32::MAX
    } else {
        (a + b) as u32
    }
}

} // verus!
