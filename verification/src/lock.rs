//! Priority inheritance on lock contention.
//!
//! When a task contends for a [`PriorityInheritingLock`] held by a
//! lower-priority task, the holder inherits the contender's priority, so a
//! third, medium-priority task cannot keep preempting the holder and starve
//! the waiter. Releasing the lock drops what the holder inherited. Only the
//! two priority-changing events (a boost and a restore) are journalled.
//!
//! The lock does not block anybody: a contended attempt reports
//! [`LockError::AlreadyLocked`], and the caller parks or retries.

use vstd::prelude::*;
use crate::sched::{Priority, Scheduler, TaskId};
use crate::spoor::{Action, Actor, Category, Outcome, Spoor, SpoorJournal, recorded};

verus! {

/// Errors the lock operations fail closed with.
#[derive(Debug, Clone, Copy, PartialEq, Eq, Structural)]
pub enum LockError {
    /// The lock is held (by another task, or by the caller: it is not
    /// reentrant).
    AlreadyLocked,
    /// `unlock` was called by a task that does not hold the lock.
    NotHeldByCaller,
    /// The task concerned is not live in the given scheduler.
    UnknownTask,
}

/// The record a boost of `holder` to `priority` journals.
pub open spec fn boost_spoor(holder: TaskId, priority: Priority) -> Spoor {
    Spoor {
        category: Category::Lock,
        who: Actor::Kernel,
        action: Action::Boost,
        outcome: Outcome::Success,
        target: holder.0.index as u16,
        cost: priority.value() as u32,
    }
}

/// The record a restore of `task` to `priority` journals.
pub open spec fn restore_spoor(task: TaskId, priority: Priority) -> Spoor {
    Spoor {
        category: Category::Lock,
        who: Actor::Kernel,
        action: Action::Restore,
        outcome: Outcome::Success,
        target: task.0.index as u16,
        cost: priority.value() as u32,
    }
}

/// A non-reentrant lock that lends its holder the priority of any
/// higher-priority contender until it is released.
pub struct PriorityInheritingLock {
    holder: Option<TaskId>,
    original_priority: Option<Priority>,
}

impl PriorityInheritingLock {
    /// The task holding the lock, if any.
    pub closed spec fn holder(&self) -> Option<TaskId> {
        self.holder
    }

    /// The holder's priority before the first boost of the current holding,
    /// or `None` when the holding has not been contended.
    pub closed spec fn original_priority(&self) -> Option<Priority> {
        self.original_priority
    }

    /// An unlocked lock.
    pub fn new() -> (l: Self)
        ensures
            l.holder() is None,
            l.original_priority() is None,
    {
        PriorityInheritingLock { holder: None, original_priority: None }
    }

    /// Attempts to take the lock for `task`, which runs at `task_priority`.
    ///
    /// A free lock is taken. A held lock is refused with
    /// [`LockError::AlreadyLocked`]; if the contender outranks the holder's
    /// current priority, the holder first inherits `task_priority` and the
    /// boost is journalled. A holder that is no longer live is reported as
    /// [`LockError::UnknownTask`] and nothing changes.
    pub fn try_lock<const N: usize, const J: usize>(
        &mut self,
        scheduler: &mut Scheduler<N>,
        journal: &mut SpoorJournal<J>,
        task: TaskId,
        task_priority: Priority,
    ) -> (r: Result<(), LockError>)
        requires
            old(journal).well_formed(),
        ensures
            final(journal).well_formed(),
            old(self).holder() is None ==> {
                &&& r == Ok::<(), LockError>(())
                &&& final(self).holder() == Some(task)
                &&& final(self).original_priority() is None
                &&& final(scheduler).slots() == old(scheduler).slots()
                &&& final(journal)@ == old(journal)@
            },
            old(self).holder() matches Some(h) ==> {
                let holder_priority = old(scheduler).tcb(h).effective();
                if !old(scheduler).live(h) {
                    &&& r == Err::<(), LockError>(LockError::UnknownTask)
                    &&& *final(self) == *old(self)
                    &&& final(scheduler).slots() == old(scheduler).slots()
                    &&& final(journal)@ == old(journal)@
                } else if task_priority.value() > holder_priority.value() {
                    &&& r == Err::<(), LockError>(LockError::AlreadyLocked)
                    &&& final(self).holder() == old(self).holder()
                    &&& final(self).original_priority() == (if old(
                        self,
                    ).original_priority() is None {
                        Some(holder_priority)
                    } else {
                        old(self).original_priority()
                    })
                    &&& final(scheduler).slots() == Scheduler::<N>::replaced(
                        old(scheduler).slots(),
                        h,
                        crate::sched::Tcb {
                            inherited_priority: crate::sched::raised(
                                old(scheduler).tcb(h).inherited_priority,
                                task_priority,
                            ),
                            ..old(scheduler).tcb(h)
                        },
                    )
                    &&& final(journal)@ == recorded(old(journal)@, J, boost_spoor(h, task_priority))
                } else {
                    &&& r == Err::<(), LockError>(LockError::AlreadyLocked)
                    &&& *final(self) == *old(self)
                    &&& final(scheduler).slots() == old(scheduler).slots()
                    &&& final(journal)@ == old(journal)@
                }
            },
    {
        match self.holder {
            None => {
                self.holder = Some(task);
                self.original_priority = None;
                Ok(())
            },
            Some(holder) => {
                let holder_priority = match scheduler.priority_of(holder) {
                    Some(p) => p,
                    None => return Err(LockError::UnknownTask),
                };
                if task_priority.value() > holder_priority.value() {
                    if self.original_priority.is_none() {
                        self.original_priority = Some(holder_priority);
                    }
                    let _ = scheduler.inherit_priority(holder, task_priority);
                    journal.append(
                        Spoor::stamp(
                            Category::Lock,
                            Actor::Kernel,
                            Action::Boost,
                            Outcome::Success,
                            holder.index() as u16,
                            task_priority.value() as u32,
                        ),
                    );
                }
                Err(LockError::AlreadyLocked)
            },
        }
    }

    /// Releases the lock held by `task`.
    ///
    /// If the holding was contended, `task` drops everything it inherited
    /// and falls back to its own priority, and the restore is journalled
    /// with the priority it fell back to. Refused with
    /// [`LockError::NotHeldByCaller`], changing nothing, when `task` is not
    /// the holder. If a contended holder is no longer live, the contention
    /// record is cleared, the lock stays held, and
    /// [`LockError::UnknownTask`] is returned.
    pub fn unlock<const N: usize, const J: usize>(
        &mut self,
        scheduler: &mut Scheduler<N>,
        journal: &mut SpoorJournal<J>,
        task: TaskId,
    ) -> (r: Result<(), LockError>)
        requires
            old(journal).well_formed(),
        ensures
            final(journal).well_formed(),
            old(self).holder() != Some(task) ==> {
                &&& r == Err::<(), LockError>(LockError::NotHeldByCaller)
                &&& *final(self) == *old(self)
                &&& final(scheduler).slots() == old(scheduler).slots()
                &&& final(journal)@ == old(journal)@
            },
            old(self).holder() == Some(task) && old(self).original_priority() is None ==> {
                &&& r == Ok::<(), LockError>(())
                &&& final(self).holder() is None
                &&& final(self).original_priority() is None
                &&& final(scheduler).slots() == old(scheduler).slots()
                &&& final(journal)@ == old(journal)@
            },
            old(self).holder() == Some(task) && old(self).original_priority() is Some ==> {
                if old(scheduler).live(task) {
                    let restored = old(scheduler).tcb(task).base_priority;
                    &&& r == Ok::<(), LockError>(())
                    &&& final(self).holder() is None
                    &&& final(self).original_priority() is None
                    &&& final(scheduler).slots() == Scheduler::<N>::replaced(
                        old(scheduler).slots(),
                        task,
                        crate::sched::Tcb { inherited_priority: None, ..old(scheduler).tcb(task) },
                    )
                    &&& final(journal)@ == recorded(old(journal)@, J, restore_spoor(task, restored))
                } else {
                    &&& r == Err::<(), LockError>(LockError::UnknownTask)
                    &&& final(self).holder() == Some(task)
                    &&& final(self).original_priority() is None
                    &&& final(scheduler).slots() == old(scheduler).slots()
                    &&& final(journal)@ == old(journal)@
                }
            },
    {
        let held_by_task = match self.holder {
            Some(holder) => holder == task,
            None => false,
        };
        if !held_by_task {
            return Err(LockError::NotHeldByCaller);
        }
        if self.original_priority.is_some() {
            self.original_priority = None;
            let restored = match scheduler.release_inheritance(task) {
                Some(p) => p,
                None => return Err(LockError::UnknownTask),
            };
            journal.append(
                Spoor::stamp(
                    Category::Lock,
                    Actor::Kernel,
                    Action::Restore,
                    Outcome::Success,
                    task.index() as u16,
                    restored.value() as u32,
                ),
            );
        }
        self.holder = None;
        Ok(())
    }
}

impl Default for PriorityInheritingLock {
    fn default() -> (l: Self)
        ensures
            l.holder() is None,
            l.original_priority() is None,
    {
        Self::new()
    }
}

} // verus!
