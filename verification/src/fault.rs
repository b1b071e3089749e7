//! Fault disposition policy and audit.
//!
//! Deciding what to do about a captured fault is a pure function of one
//! fact: which context was running. The vector, error code and faulting
//! address are evidence for the record, never inputs to the decision.
//! A fault inside a task terminates that task only; a fault in kernel
//! context halts the system. There is no "resume" outcome.

use vstd::prelude::*;
use crate::sched::TaskId;
use crate::spoor::{Action, Actor, Category, Outcome, Spoor, SpoorJournal, recorded};

verus! {

/// Which execution context a fault interrupted.
#[derive(Debug, Clone, Copy, PartialEq, Eq, Structural)]
pub enum FaultingContext {
    /// A scheduled task was running.
    Task(TaskId),
    /// The kernel itself was running.
    Kernel,
}

/// One captured fault, reduced to what the policy may see.
#[derive(Debug, Clone, Copy, PartialEq, Eq, Structural)]
pub struct FaultReport {
    /// The raw vector number, for the record only.
    pub vector: u64,
    /// Which context was running.
    pub context: FaultingContext,
}

/// What the kernel does about a captured fault.
#[derive(Debug, Clone, Copy, PartialEq, Eq, Structural)]
pub enum Disposition {
    /// Mark the faulting task finished and keep scheduling everything else.
    TerminateTask(TaskId),
    /// Stop: the fault was in kernel context and cannot be contained.
    HaltSystem,
}

/// The vector of a double fault.
pub const DOUBLE_FAULT_VECTOR: u64 = 8;

/// The disposition for a fault in `context`.
pub open spec fn disposition_for(context: FaultingContext) -> Disposition {
    match context {
        FaultingContext::Task(task) => Disposition::TerminateTask(task),
        FaultingContext::Kernel => Disposition::HaltSystem,
    }
}

/// The task index an audit record names for `context`: the task's slot,
/// or 0 for kernel context.
pub open spec fn audit_target(context: FaultingContext) -> u16 {
    match context {
        FaultingContext::Task(task) => task.0.index as u16,
        FaultingContext::Kernel => 0,
    }
}

/// A fault-category record stamped by the kernel.
pub open spec fn fault_spoor(action: Action, outcome: Outcome, target: u16, cost: u32) -> Spoor {
    Spoor { category: Category::Fault, who: Actor::Kernel, action, outcome, target, cost }
}

impl Disposition {
    /// Decides what to do about `report`, reading only which context was
    /// running.
    pub fn of(report: &FaultReport) -> (d: Self)
        ensures
            d == disposition_for(report.context),
    {
        match report.context {
            FaultingContext::Task(task) => Disposition::TerminateTask(task),
            FaultingContext::Kernel => Disposition::HaltSystem,
        }
    }

    /// Whether this disposition lets the rest of the system keep running.
    pub fn system_survives(self) -> (r: bool)
        ensures
            r == (self is TerminateTask),
    {
        match self {
            Disposition::TerminateTask(_) => true,
            Disposition::HaltSystem => false,
        }
    }
}

/// The audit pair a fault emits: the capture (always a failed fault), then
/// the decision (successful only when the fault was contained to a task).
/// Both carry the faulting task's index and the vector, and nothing else.
pub fn audit(report: &FaultReport, disposition: Disposition) -> (pair: [Spoor; 2])
    ensures
        pair[0] == fault_spoor(
            Action::Fault,
            Outcome::Failed,
            audit_target(report.context),
            report.vector as u32,
        ),
        pair[1] == fault_spoor(
            Action::Terminate,
            if disposition is TerminateTask {
                Outcome::Success
            } else {
                Outcome::Failed
            },
            audit_target(report.context),
            report.vector as u32,
        ),
{
    let target: u16 = match report.context {
        FaultingContext::Task(task) => task.index() as u16,
        FaultingContext::Kernel => 0,
    };
    let captured = Spoor::stamp(
        Category::Fault,
        Actor::Kernel,
        Action::Fault,
        Outcome::Failed,
        target,
        report.vector as u32,
    );
    let decided = Spoor::stamp(
        Category::Fault,
        Actor::Kernel,
        Action::Terminate,
        match disposition {
            Disposition::TerminateTask(_) => Outcome::Success,
            Disposition::HaltSystem => Outcome::Failed,
        },
        target,
        report.vector as u32,
    );
    [captured, decided]
}

/// The audit pair a double fault emits. Nothing can be contained, so the
/// decision record is failed whichever context was running; the context
/// only attributes the record.
pub fn audit_double_fault(context: FaultingContext) -> (pair: [Spoor; 2])
    ensures
        pair[0] == fault_spoor(
            Action::Fault,
            Outcome::Failed,
            audit_target(context),
            DOUBLE_FAULT_VECTOR as u32,
        ),
        pair[1] == fault_spoor(
            Action::Terminate,
            Outcome::Failed,
            audit_target(context),
            DOUBLE_FAULT_VECTOR as u32,
        ),
{
    let target: u16 = match context {
        FaultingContext::Task(task) => task.index() as u16,
        FaultingContext::Kernel => 0,
    };
    let vector: u32 = DOUBLE_FAULT_VECTOR as u32;
    [
        Spoor::stamp(Category::Fault, Actor::Kernel, Action::Fault, Outcome::Failed, target, vector),
        Spoor::stamp(
            Category::Fault,
            Actor::Kernel,
            Action::Terminate,
            Outcome::Failed,
            target,
            vector,
        ),
    ]
}

/// Decides `report` and journals its audit pair, capture first, returning
/// the disposition and how many records the journal then holds. A full
/// journal makes room by overwriting its oldest records; the decision is the
/// same either way.
pub fn journal_fault<const J: usize>(journal: &mut SpoorJournal<J>, report: &FaultReport) -> (r: (
    Disposition,
    usize,
))
    requires
        old(journal).well_formed(),
    ensures
        final(journal).well_formed(),
        r.0 == disposition_for(report.context),
        final(journal)@ == recorded(
            recorded(
                old(journal)@,
                J,
                fault_spoor(
                    Action::Fault,
                    Outcome::Failed,
                    audit_target(report.context),
                    report.vector as u32,
                ),
            ),
            J,
            fault_spoor(
                Action::Terminate,
                if r.0 is TerminateTask {
                    Outcome::Success
                } else {
                    Outcome::Failed
                },
                audit_target(report.context),
                report.vector as u32,
            ),
        ),
        r.1 == final(journal)@.len(),
{
    let disposition = Disposition::of(report);
    let pair = audit(report, disposition);
    journal.append(pair[0]);
    journal.append(pair[1]);
    (disposition, journal.len())
}

/// The vector never decides: two faults from the same context get the same
/// disposition, whatever their vectors.
pub proof fn lemma_vector_never_decides(a: FaultReport, b: FaultReport)
    requires
        a.context == b.context,
    ensures
        disposition_for(a.context) == disposition_for(b.context),
{
}

/// A fault in a task is contained to that task and the system survives; a
/// fault in kernel context halts it.
pub proof fn lemma_containment(context: FaultingContext)
    ensures
        context matches FaultingContext::Task(t) ==> disposition_for(context)
            == Disposition::TerminateTask(t),
        context is Kernel ==> disposition_for(context) == Disposition::HaltSystem,
{
}

} // verus!
