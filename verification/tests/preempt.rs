use lib::preempt::{tick_outcome, timer_tick_decision, TickOutcome};
use lib::sched::{OverrunPolicy, Priority, Scheduler, TaskEntry, TaskId, TaskState, WcetBudgetTicks};

fn dummy_entry() {}

fn priority(value: u8) -> Priority {
    Priority::try_new(value).expect("value is in range")
}

fn create<const N: usize>(sched: &mut Scheduler<N>, p: u8, budget: u32) -> TaskId {
    sched
        .create_task(
            priority(p),
            WcetBudgetTicks(budget),
            OverrunPolicy::TripToSafeState,
            TaskEntry(dummy_entry as usize),
        )
        .unwrap()
}

fn scheduler_with_two() -> (Scheduler<4>, TaskId, TaskId) {
    let mut sched: Scheduler<4> = Scheduler::new();
    let low = create(&mut sched, 5, 1_000);
    let high = create(&mut sched, 25, 1_000);
    (sched, low, high)
}

#[test]
fn a_tick_with_no_running_task_never_preempts() {
    let (_sched, _low, high) = scheduler_with_two();
    assert_eq!(tick_outcome(None, None), TickOutcome::NoRunningTask);
    assert_eq!(
        tick_outcome(None, Some((high, priority(31)))),
        TickOutcome::NoRunningTask,
        "even a maximum-priority candidate must not preempt the dispatcher"
    );
}

#[test]
fn a_running_task_with_no_ready_candidate_continues() {
    let (_sched, low, _high) = scheduler_with_two();
    assert_eq!(tick_outcome(Some((low, priority(5))), None), TickOutcome::Continue);
}

#[test]
fn a_strictly_higher_priority_ready_task_preempts() {
    let (_sched, low, high) = scheduler_with_two();
    assert_eq!(
        tick_outcome(Some((low, priority(5))), Some((high, priority(25)))),
        TickOutcome::Preempt(high)
    );
    assert_eq!(
        tick_outcome(Some((low, priority(5))), Some((high, priority(6)))),
        TickOutcome::Preempt(high)
    );
}

#[test]
fn an_equal_priority_ready_task_does_not_preempt() {
    let (_sched, low, high) = scheduler_with_two();
    assert_eq!(
        tick_outcome(Some((low, priority(15))), Some((high, priority(15)))),
        TickOutcome::Continue
    );
}

#[test]
fn a_lower_priority_ready_task_does_not_preempt() {
    let (_sched, low, high) = scheduler_with_two();
    assert_eq!(
        tick_outcome(Some((high, priority(25))), Some((low, priority(5)))),
        TickOutcome::Continue
    );
}

#[test]
fn the_candidate_is_the_task_the_dispatcher_itself_would_select() {
    let (mut sched, low, high) = scheduler_with_two();
    let medium = create(&mut sched, 15, 1_000);

    sched.set_state(low, TaskState::Running).unwrap();
    assert_eq!(sched.highest_priority_ready(), Some(high));

    let running = (low, sched.live_priority_of(low).unwrap());
    let best = sched
        .highest_priority_ready()
        .map(|task| (task, sched.live_priority_of(task).unwrap()))
        .unwrap();
    assert_eq!(tick_outcome(Some(running), Some(best)), TickOutcome::Preempt(high));

    sched.set_state(high, TaskState::Blocked).unwrap();
    let best = sched
        .highest_priority_ready()
        .map(|task| (task, sched.live_priority_of(task).unwrap()))
        .unwrap();
    assert_eq!(tick_outcome(Some(running), Some(best)), TickOutcome::Preempt(medium));
}

#[test]
fn a_boosted_holder_is_no_longer_preemptible_by_the_medium_task() {
    let (mut sched, low, _high) = scheduler_with_two();
    let medium = create(&mut sched, 15, 1_000);

    let before = (low, sched.live_priority_of(low).unwrap());
    let candidate = (medium, sched.live_priority_of(medium).unwrap());
    assert_eq!(tick_outcome(Some(before), Some(candidate)), TickOutcome::Preempt(medium));

    sched.inherit_priority(low, priority(25)).unwrap();
    let after = (low, sched.live_priority_of(low).unwrap());
    assert_eq!(tick_outcome(Some(after), Some(candidate)), TickOutcome::Continue);
}

#[test]
fn live_priority_of_reports_the_boosted_value_and_fails_closed_when_unknown() {
    let (mut sched, low, _high) = scheduler_with_two();
    assert_eq!(sched.live_priority_of(low), Some(priority(5)));
    sched.inherit_priority(low, priority(25)).unwrap();
    assert_eq!(sched.live_priority_of(low), Some(priority(25)));

    let mut empty: Scheduler<1> = Scheduler::new();
    let gone = create(&mut empty, 3, 10);
    empty.free_task_for_test(gone);
    assert_eq!(empty.live_priority_of(gone), None);
    assert_eq!(tick_outcome(None, None), TickOutcome::NoRunningTask);
}

// The whole tick decision reads the scheduler the way the dispatcher does.
#[test]
fn the_timer_tick_decision_reads_the_scheduler() {
    let (mut sched, low, high) = scheduler_with_two();
    sched.set_state(low, TaskState::Running).unwrap();
    assert_eq!(timer_tick_decision(&sched, Some(low)), TickOutcome::Preempt(high));
    assert_eq!(timer_tick_decision(&sched, None), TickOutcome::NoRunningTask);
    sched.set_state(high, TaskState::Blocked).unwrap();
    assert_eq!(timer_tick_decision(&sched, Some(low)), TickOutcome::Continue);
    sched.free_task_for_test(low);
    assert_eq!(timer_tick_decision(&sched, Some(low)), TickOutcome::NoRunningTask);
}
