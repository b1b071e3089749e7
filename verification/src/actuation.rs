//! The bounded path from a decision to an actuator.
//!
//! One [`ActuationPort`] is one actuator line with one declared owner and one
//! declared relative deadline. A command reaches the line only if the caller
//! is the declared owner, the scheduler says that task is running, an
//! activation is armed, and its deadline has not passed. Every other outcome
//! is a refusal that leaves the line untouched and is journalled.
//!
//! The deadline counts ticks since [`ActuationPort::arm`], whether or not the
//! owner is scheduled; it is a different quantity from the execution budget
//! the scheduler charges only while a task runs.
//!
//! The caller's identity is checked before the activation window is looked
//! at, so an unauthorized caller gets the same answer whatever state the
//! window is in.

use vstd::prelude::*;
use crate::sched::{Scheduler, TaskId, TaskState};
use crate::spoor::{Action, Actor, Category, Outcome, Spoor, SpoorJournal, recorded};

verus! {

/// A declared relative deadline, in timer ticks, measured from the
/// activation [`ActuationPort::arm`] starts.
#[derive(Debug, Clone, Copy, PartialEq, Eq, Structural)]
pub struct DeadlineTicks(pub u32);

/// Why an actuation command did not reach the line.
#[derive(Debug, Clone, Copy, PartialEq, Eq, Structural)]
pub enum ActuationError {
    /// The caller is not the declared owner, or the owner is not running.
    NotAuthorized,
    /// No activation is armed.
    NotArmed,
    /// The declared deadline passed before the command was presented.
    DeadlineMissed,
}

/// Where the current activation stands against its declared deadline.
#[derive(Debug, Clone, Copy, PartialEq, Eq, Structural)]
pub enum DeadlineStatus {
    /// No activation is armed.
    Idle,
    /// Armed, with this many ticks elapsed, still inside the deadline.
    WithinDeadline(u32),
    /// Armed, and the deadline has passed.
    Missed,
}

/// The output boundary an [`ActuationPort`] drives. It has no way to refuse:
/// whether to actuate is decided by the port alone.
pub trait OutputLine {
    /// The commands put on the line so far, oldest first.
    spec fn commands(&self) -> Vec<u8>;

    /// Puts `command` on the line.
    fn write_command(&mut self, command: u8)
        ensures
            final(self).commands()@ == old(self).commands()@.push(command),
    ;
}

/// An actuation record about `target`.
pub open spec fn actuation_spoor(action: Action, outcome: Outcome, target: TaskId, cost: u32) -> Spoor {
    Spoor {
        category: Category::Actuation,
        who: Actor::Kernel,
        action,
        outcome,
        target: target.0.index as u16,
        cost,
    }
}

/// One actuator line, its declared owner, and its declared deadline. The
/// owner, the deadline and the line are fixed when the port is declared.
pub struct ActuationPort<L: OutputLine> {
    line: L,
    owner: TaskId,
    deadline: DeadlineTicks,
    elapsed: Option<u32>,
    missed: bool,
    emitted: u32,
    refused: u32,
}

impl<L: OutputLine> ActuationPort<L> {
    /// The output line.
    pub closed spec fn line_spec(&self) -> L {
        self.line
    }

    /// The declared owner.
    pub closed spec fn owner_spec(&self) -> TaskId {
        self.owner
    }

    /// The declared deadline.
    pub closed spec fn deadline_spec(&self) -> DeadlineTicks {
        self.deadline
    }

    /// Ticks elapsed in the armed activation, `None` when none is armed.
    pub closed spec fn elapsed_spec(&self) -> Option<u32> {
        self.elapsed
    }

    /// Whether the armed activation's deadline has passed (and been
    /// journalled).
    pub closed spec fn missed_spec(&self) -> bool {
        self.missed
    }

    /// Commands that reached the line.
    pub closed spec fn emitted_spec(&self) -> u32 {
        self.emitted
    }

    /// Commands refused.
    pub closed spec fn refused_spec(&self) -> u32 {
        self.refused
    }

    /// Where the armed activation stands.
    pub open spec fn status_spec(&self) -> DeadlineStatus {
        match self.elapsed_spec() {
            None => DeadlineStatus::Idle,
            Some(e) => if self.missed_spec() {
                DeadlineStatus::Missed
            } else {
                DeadlineStatus::WithinDeadline(e)
            },
        }
    }

    /// Whether `caller` may drive the line: it is the owner and `scheduler`
    /// knows it as running.
    pub open spec fn authorizes<const N: usize>(&self, scheduler: &Scheduler<N>, caller: TaskId) -> bool {
        &&& caller == self.owner_spec()
        &&& scheduler.live(caller)
        &&& scheduler.tcb(caller).state == TaskState::Running
    }

    /// The answer [`ActuationPort::emit`] gives `caller`.
    pub open spec fn emit_decision<const N: usize>(&self, scheduler: &Scheduler<N>, caller: TaskId) -> Result<(), ActuationError> {
        if !self.authorizes(scheduler, caller) {
            Err(ActuationError::NotAuthorized)
        } else {
            match self.status_spec() {
                DeadlineStatus::Idle => Err(ActuationError::NotArmed),
                DeadlineStatus::Missed => Err(ActuationError::DeadlineMissed),
                DeadlineStatus::WithinDeadline(_) => Ok(()),
            }
        }
    }

    /// The record a refusal of `caller` journals.
    pub open spec fn refusal_spoor(&self, caller: TaskId, error: ActuationError) -> Spoor {
        let outcome = match error {
            ActuationError::DeadlineMissed => Outcome::Capped,
            _ => Outcome::Failed,
        };
        let cost = match self.elapsed_spec() {
            Some(e) => e,
            None => 0,
        };
        actuation_spoor(Action::Actuate, outcome, caller, cost)
    }

    /// Whether `self` and `other` have the same line, owner and deadline.
    pub open spec fn same_declaration(&self, other: &Self) -> bool {
        &&& self.line_spec() == other.line_spec()
        &&& self.owner_spec() == other.owner_spec()
        &&& self.deadline_spec() == other.deadline_spec()
    }

    /// Declares `owner` as the only task that may drive `line`, with
    /// `deadline` ticks allowed between an activation and its command.
    pub fn declare(line: L, owner: TaskId, deadline: DeadlineTicks) -> (p: Self)
        ensures
            p.line_spec() == line,
            p.owner_spec() == owner,
            p.deadline_spec() == deadline,
            p.elapsed_spec() is None,
            !p.missed_spec(),
            p.emitted_spec() == 0,
            p.refused_spec() == 0,
    {
        ActuationPort { line, owner, deadline, elapsed: None, missed: false, emitted: 0, refused: 0 }
    }

    /// The declared owner.
    #[verifier::when_used_as_spec(owner_spec)]
    pub fn owner(&self) -> (r: TaskId)
        ensures
            r == self.owner_spec(),
    {
        self.owner
    }

    /// The declared relative deadline.
    #[verifier::when_used_as_spec(deadline_spec)]
    pub fn deadline(&self) -> (r: DeadlineTicks)
        ensures
            r == self.deadline_spec(),
    {
        self.deadline
    }

    /// The output line, read-only.
    pub fn line(&self) -> (r: &L)
        ensures
            *r == self.line_spec(),
    {
        &self.line
    }

    /// How many commands have reached the line.
    #[verifier::when_used_as_spec(emitted_spec)]
    pub fn emitted(&self) -> (r: u32)
        ensures
            r == self.emitted_spec(),
    {
        self.emitted
    }

    /// How many commands were refused, for any reason.
    #[verifier::when_used_as_spec(refused_spec)]
    pub fn refused(&self) -> (r: u32)
        ensures
            r == self.refused_spec(),
    {
        self.refused
    }

    /// Where the current activation stands.
    pub fn status(&self) -> (r: DeadlineStatus)
        ensures
            r == self.status_spec(),
    {
        match self.elapsed {
            None => DeadlineStatus::Idle,
            Some(e) => if self.missed {
                DeadlineStatus::Missed
            } else {
                DeadlineStatus::WithinDeadline(e)
            },
        }
    }

    /// Starts a fresh activation with no ticks elapsed. Journals nothing.
    pub fn arm(&mut self)
        ensures
            final(self).same_declaration(old(self)),
            final(self).emitted_spec() == old(self).emitted_spec(),
            final(self).refused_spec() == old(self).refused_spec(),
            final(self).elapsed_spec() == Some(0u32),
            !final(self).missed_spec(),
            final(self).status_spec() == DeadlineStatus::WithinDeadline(0),
    {
        self.elapsed = Some(0);
        self.missed = false;
    }

    /// Abandons the current activation without actuating, returning whether
    /// one was armed. Journals nothing.
    pub fn disarm(&mut self) -> (was_armed: bool)
        ensures
            was_armed == old(self).elapsed_spec() is Some,
            final(self).same_declaration(old(self)),
            final(self).emitted_spec() == old(self).emitted_spec(),
            final(self).refused_spec() == old(self).refused_spec(),
            final(self).elapsed_spec() is None,
            !final(self).missed_spec(),
            final(self).status_spec() == DeadlineStatus::Idle,
    {
        let was_armed = self.elapsed.is_some();
        self.elapsed = None;
        self.missed = false;
        was_armed
    }

    /// Charges one timer tick to the armed activation and reports where it
    /// leaves it.
    ///
    /// Elapsed ticks saturate at `u32::MAX`. Elapsed equal to the deadline is
    /// not yet a miss; the tick that takes it past is, and the miss is
    /// journalled once per activation, on that tick.
    pub fn on_tick<const J: usize>(&mut self, journal: &mut SpoorJournal<J>) -> (r: DeadlineStatus)
        requires
            old(journal).well_formed(),
        ensures
            final(journal).well_formed(),
            final(self).same_declaration(old(self)),
            final(self).emitted_spec() == old(self).emitted_spec(),
            final(self).refused_spec() == old(self).refused_spec(),
            old(self).elapsed_spec() is None ==> {
                &&& r == DeadlineStatus::Idle
                &&& final(self).elapsed_spec() is None
                &&& final(self).missed_spec() == old(self).missed_spec()
                &&& final(journal)@ == old(journal)@
            },
            old(self).elapsed_spec() matches Some(e) ==> {
                let next: u32 = if e < u32::MAX {
                    (e + 1) as u32
                } else {
                    e
                };
                &&& final(self).elapsed_spec() == Some(next)
                &&& if next <= old(self).deadline_spec().0 {
                    &&& r == DeadlineStatus::WithinDeadline(next)
                    &&& final(self).missed_spec() == old(self).missed_spec()
                    &&& final(journal)@ == old(journal)@
                } else {
                    &&& r == DeadlineStatus::Missed
                    &&& final(self).missed_spec()
                    &&& final(journal)@ == (if old(self).missed_spec() {
                        old(journal)@
                    } else {
                        recorded(
                            old(journal)@,
                            J,
                            actuation_spoor(
                                Action::Deadline,
                                Outcome::Failed,
                                old(self).owner_spec(),
                                next,
                            ),
                        )
                    })
                }
            },
            old(self).missed_spec() ==> final(journal)@ == old(journal)@,
    {
        let elapsed = match self.elapsed {
            None => return DeadlineStatus::Idle,
            Some(e) => e,
        };
        let elapsed = elapsed.saturating_add(1);
        self.elapsed = Some(elapsed);
        if elapsed <= self.deadline.0 {
            return DeadlineStatus::WithinDeadline(elapsed);
        }
        if !self.missed {
            self.missed = true;
            journal.append(
                Spoor::stamp(
                    Category::Actuation,
                    Actor::Kernel,
                    Action::Deadline,
                    Outcome::Failed,
                    self.owner.index() as u16,
                    elapsed,
                ),
            );
        }
        DeadlineStatus::Missed
    }

    /// Presents `command` at the line on behalf of `caller`.
    ///
    /// The command reaches the line only if `caller` is the declared owner,
    /// `scheduler` knows it as running, an activation is armed and its
    /// deadline has not passed; the activation is then consumed and the
    /// command is journalled as its cost. Any other outcome is a refusal,
    /// checked in that order: it is counted, journalled against the caller,
    /// and leaves the line and the activation as they were.
    pub fn emit<const N: usize, const J: usize>(
        &mut self,
        scheduler: &Scheduler<N>,
        journal: &mut SpoorJournal<J>,
        caller: TaskId,
        command: u8,
    ) -> (r: Result<(), ActuationError>)
        requires
            old(journal).well_formed(),
        ensures
            final(journal).well_formed(),
            r == old(self).emit_decision(scheduler, caller),
            final(self).owner_spec() == old(self).owner_spec(),
            final(self).deadline_spec() == old(self).deadline_spec(),
            r matches Err(error) ==> {
                &&& final(self).line_spec() == old(self).line_spec()
                &&& final(self).elapsed_spec() == old(self).elapsed_spec()
                &&& final(self).missed_spec() == old(self).missed_spec()
                &&& final(self).emitted_spec() == old(self).emitted_spec()
                &&& final(self).refused_spec() == (if old(self).refused_spec() < u32::MAX {
                    (old(self).refused_spec() + 1) as u32
                } else {
                    old(self).refused_spec()
                })
                &&& final(journal)@ == recorded(
                    old(journal)@,
                    J,
                    old(self).refusal_spoor(caller, error),
                )
            },
            r is Ok ==> {
                &&& final(self).line_spec().commands()@ == old(self).line_spec().commands()@.push(command)
                &&& final(self).elapsed_spec() is None
                &&& !final(self).missed_spec()
                &&& final(self).status_spec() == DeadlineStatus::Idle
                &&& final(self).refused_spec() == old(self).refused_spec()
                &&& final(self).emitted_spec() == (if old(self).emitted_spec() < u32::MAX {
                    (old(self).emitted_spec() + 1) as u32
                } else {
                    old(self).emitted_spec()
                })
                &&& final(journal)@ == recorded(
                    old(journal)@,
                    J,
                    actuation_spoor(Action::Actuate, Outcome::Success, caller, command as u32),
                )
            },
    {
        let authorized = caller == self.owner && match scheduler.state_of(caller) {
            Some(TaskState::Running) => true,
            _ => false,
        };
        if !authorized {
            return Err(self.refuse(journal, caller, ActuationError::NotAuthorized));
        }
        match self.status() {
            DeadlineStatus::Idle => Err(self.refuse(journal, caller, ActuationError::NotArmed)),
            DeadlineStatus::Missed => Err(
                self.refuse(journal, caller, ActuationError::DeadlineMissed),
            ),
            DeadlineStatus::WithinDeadline(_) => {
                self.line.write_command(command);
                self.elapsed = None;
                self.missed = false;
                self.emitted = self.emitted.saturating_add(1);
                journal.append(
                    Spoor::stamp(
                        Category::Actuation,
                        Actor::Kernel,
                        Action::Actuate,
                        Outcome::Success,
                        caller.index() as u16,
                        command as u32,
                    ),
                );
                Ok(())
            },
        }
    }

    /// Counts and journals a refusal of `caller`, returning `error`.
    fn refuse<const J: usize>(
        &mut self,
        journal: &mut SpoorJournal<J>,
        caller: TaskId,
        error: ActuationError,
    ) -> (r: ActuationError)
        requires
            old(journal).well_formed(),
        ensures
            final(journal).well_formed(),
            r == error,
            final(self).line_spec() == old(self).line_spec(),
            final(self).owner_spec() == old(self).owner_spec(),
            final(self).deadline_spec() == old(self).deadline_spec(),
            final(self).elapsed_spec() == old(self).elapsed_spec(),
            final(self).missed_spec() == old(self).missed_spec(),
            final(self).emitted_spec() == old(self).emitted_spec(),
            final(self).refused_spec() == (if old(self).refused_spec() < u32::MAX {
                (old(self).refused_spec() + 1) as u32
            } else {
                old(self).refused_spec()
            }),
            final(journal)@ == recorded(old(journal)@, J, old(self).refusal_spoor(caller, error)),
    {
        self.refused = self.refused.saturating_add(1);
        let outcome = match error {
            ActuationError::DeadlineMissed => Outcome::Capped,
            _ => Outcome::Failed,
        };
        let cost: u32 = match self.elapsed {
            Some(e) => e,
            None => 0,
        };
        journal.append(
            Spoor::stamp(
                Category::Actuation,
                Actor::Kernel,
                Action::Actuate,
                outcome,
                caller.index() as u16,
                cost,
            ),
        );
        error
    }
}

/// Steps in the control task's decision computation.
pub const DECISION_STEPS: u32 = 8;

/// The state after `steps` steps of the multiply-and-add recurrence (modulo
/// 2^64) from `seed`; step `k` adds `k | 1`.
pub open spec fn lcg_state(seed: u64, steps: nat) -> u64
    decreases steps,
{
    if steps == 0 {
        seed
    } else {
        let step = (steps - 1) as u64;
        lcg_state(seed, (steps - 1) as nat).wrapping_mul(6_364_136_223_846_793_005u64).wrapping_add(
            step | 1u64,
        )
    }
}

/// The decision state after `steps` steps for activation `index`: the
/// recurrence seeded by mixing a fixed odd constant into the index.
pub open spec fn decision_state(index: u32, steps: nat) -> u64 {
    lcg_state((index as u64) ^ 0x9E37_79B9_7F4A_7C15u64, steps)
}

/// The command word the decision for activation `index` produces: bits 24
/// to 31 of the final state.
pub open spec fn decision(index: u32) -> u8 {
    (decision_state(index, DECISION_STEPS as nat) >> 24u64) as u8
}

/// The control task's decision: a fixed, deterministic computation producing
/// one command word for activation `index`.
pub fn decide(index: u32) -> (command: u8)
    ensures
        command == decision(index),
{
    let mut accumulator: u64 = (index as u64) ^ 0x9E37_79B9_7F4A_7C15u64;
    let mut step: u32 = 0;
    while step < DECISION_STEPS
        invariant
            step <= DECISION_STEPS,
            accumulator == decision_state(index, step as nat),
        decreases DECISION_STEPS - step,
    {
        accumulator = accumulator.wrapping_mul(6_364_136_223_846_793_005u64).wrapping_add(
            (step as u64) | 1u64,
        );
        step = step + 1;
    }
    #[verifier::truncate]
    ((accumulator >> 24u64) as u8)
}

/// A refusal is no oracle: two ports with the same owner give an
/// unauthorized caller the same answer, whatever state either activation
/// window is in.
pub proof fn lemma_unauthorized_answer_ignores_the_window<L: OutputLine, const N: usize>(
    a: ActuationPort<L>,
    b: ActuationPort<L>,
    scheduler: Scheduler<N>,
    caller: TaskId,
)
    requires
        a.owner_spec() == b.owner_spec(),
        !a.authorizes(&scheduler, caller),
    ensures
        a.emit_decision(&scheduler, caller) == b.emit_decision(&scheduler, caller),
        a.emit_decision(&scheduler, caller) == Err::<(), ActuationError>(
            ActuationError::NotAuthorized,
        ),
{
}

/// No command actuates from an idle port, whoever presents it. Since a
/// successful [`ActuationPort::emit`] leaves its port idle, each activation
/// actuates at most once.
pub proof fn lemma_one_activation_one_actuation<L: OutputLine, const N: usize>(
    port: ActuationPort<L>,
    scheduler: Scheduler<N>,
    caller: TaskId,
)
    requires
        port.status_spec() == DeadlineStatus::Idle,
    ensures
        port.emit_decision(&scheduler, caller) is Err,
{
}

} // verus!
