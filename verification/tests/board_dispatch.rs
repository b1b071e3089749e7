use lib::board_dispatch::{
    prepare_board_task, round_report, RoundReport, RoundVerdict, BOARD_BUDGET_TICKS, BOARD_PRIORITY,
    BOARD_STACK_SIZE, BOARD_TASKS, NO_TASK,
};
use lib::context::Context;
use lib::sched::{OverrunPolicy, Priority, Scheduler, TaskEntry, TaskState, WcetBudgetTicks};

fn board_task_yield_forever() {}

fn entry() -> TaskEntry {
    TaskEntry(board_task_yield_forever as usize)
}

#[test]
fn the_no_task_sentinel_is_outside_the_task_index_range() {
    assert!(BOARD_TASKS < NO_TASK as usize, "a real index could equal the sentinel");
    assert_eq!(NO_TASK, u16::MAX);
}

#[test]
fn the_sentinel_is_not_zero_because_zero_is_the_task_this_board_runs() {
    assert_ne!(NO_TASK, 0);
}

#[test]
fn the_board_priority_is_a_priority_the_scheduler_accepts() {
    assert!(Priority::try_new(BOARD_PRIORITY).is_ok());
}

#[test]
fn the_board_stack_is_large_enough_for_a_context() {
    let mut stack = [0u8; BOARD_STACK_SIZE];
    let base = stack.as_ptr() as u64;
    assert!(Context::new(&mut stack, base, entry()).is_ok());
}

#[test]
fn a_round_dispatches_the_one_task_and_it_yields_back_ready() {
    let mut scheduler: Scheduler<BOARD_TASKS> = Scheduler::new();
    let priority = Priority::try_new(BOARD_PRIORITY).expect("valid priority");
    let task = scheduler
        .create_task(priority, WcetBudgetTicks(BOARD_BUDGET_TICKS), OverrunPolicy::TripToSafeState, entry())
        .expect("the scheduler has room for one task");
    assert_eq!(task.index(), 0, "the board dispatches slot 0");
    assert_eq!(scheduler.state_of(task), Some(TaskState::Ready));
    assert_eq!(
        scheduler.highest_priority_ready(),
        Some(task),
        "the one task is the one a round would pick"
    );
}

#[test]
fn an_uninitialised_scheduler_offers_no_task_to_dispatch() {
    let scheduler: Scheduler<BOARD_TASKS> = Scheduler::new();
    assert_eq!(
        scheduler.highest_priority_ready(),
        None,
        "which is exactly why init is tracked by a flag and not inferred from this"
    );
}

// Preparing the board task lands it in slot 0 with the board's declaration;
// a second preparation finds slot 0 taken and reports so.
#[test]
fn preparing_the_board_task_claims_slot_zero_once() {
    let mut scheduler: Scheduler<BOARD_TASKS> = Scheduler::new();
    let task = prepare_board_task(&mut scheduler, entry()).expect("slot 0 is free");
    assert_eq!(task.index(), 0);
    assert_eq!(scheduler.live_priority_of(task), Priority::try_new(BOARD_PRIORITY).ok());
    assert_eq!(scheduler.wcet_state(task), Some((0, WcetBudgetTicks(BOARD_BUDGET_TICKS))));
    assert_eq!(scheduler.overrun_policy_of(task), Some(OverrunPolicy::TripToSafeState));
    assert_eq!(prepare_board_task(&mut scheduler, entry()), None);
    assert_eq!(scheduler.iter_tasks().len(), 2, "the second task was created in slot 1");
}

// Each arm of a round's report.
#[test]
fn a_round_report_names_what_happened() {
    let mut scheduler: Scheduler<BOARD_TASKS> = Scheduler::new();
    let task = prepare_board_task(&mut scheduler, entry()).unwrap();
    assert_eq!(
        round_report(false, Some(task), Some(TaskState::Ready)),
        RoundReport { task: NO_TASK, verdict: RoundVerdict::Skipped, cost: 0 }
    );
    assert_eq!(
        round_report(true, Some(task), Some(TaskState::Ready)),
        RoundReport { task: 0, verdict: RoundVerdict::Dispatched, cost: 0 }
    );
    assert_eq!(
        round_report(true, Some(task), Some(TaskState::Running)),
        RoundReport { task: 0, verdict: RoundVerdict::Failed, cost: 0 }
    );
    assert_eq!(
        round_report(true, None, None),
        RoundReport { task: NO_TASK, verdict: RoundVerdict::Failed, cost: 0 }
    );
}
