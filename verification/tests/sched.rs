use lib::sched::{
    OverrunPolicy, Priority, PriorityError, Scheduler, TaskCreateError, TaskEntry, TaskState,
    WcetBudgetTicks, PRIORITY_MAX, PRIORITY_MIN,
};

fn dummy_entry() {}

fn entry() -> TaskEntry {
    TaskEntry(dummy_entry as usize)
}

const BUDGET: WcetBudgetTicks = WcetBudgetTicks(1000);

fn low_priority() -> Priority {
    Priority::try_new(1).expect("1 is in range")
}

#[test]
fn create_task_returns_distinguishable_task_ids() {
    let mut sched: Scheduler<4> = Scheduler::new();
    let a = sched
        .create_task(low_priority(), BUDGET, OverrunPolicy::TripToSafeState, entry())
        .expect("slot available");
    let b = sched
        .create_task(low_priority(), BUDGET, OverrunPolicy::TripToSafeState, entry())
        .expect("slot available");
    assert_ne!(a, b);
}

#[test]
fn exhausted_scheduler_fails_closed_and_recovers_after_free() {
    let mut sched: Scheduler<2> = Scheduler::new();
    let a = sched
        .create_task(low_priority(), BUDGET, OverrunPolicy::TripToSafeState, entry())
        .unwrap();
    let _b = sched
        .create_task(low_priority(), BUDGET, OverrunPolicy::TripToSafeState, entry())
        .unwrap();

    assert_eq!(
        sched.create_task(low_priority(), BUDGET, OverrunPolicy::TripToSafeState, entry()),
        Err(TaskCreateError::Exhausted)
    );
    assert_eq!(
        sched.create_task(low_priority(), BUDGET, OverrunPolicy::TripToSafeState, entry()),
        Err(TaskCreateError::Exhausted)
    );

    sched.tasks.free(a.0).expect("a was a valid, occupied handle");
    let c = sched.create_task(low_priority(), BUDGET, OverrunPolicy::TripToSafeState, entry());
    assert!(c.is_ok(), "a freed slot should be allocatable again");
}

#[test]
fn priority_construction_rejects_out_of_range_values() {
    assert_eq!(Priority::try_new(PRIORITY_MAX + 1), Err(PriorityError::OutOfRange));
    assert_eq!(Priority::try_new(u8::MAX), Err(PriorityError::OutOfRange));
}

#[test]
fn priority_construction_accepts_full_valid_range_including_boundaries() {
    assert_eq!(Priority::try_new(PRIORITY_MIN).map(Priority::value), Ok(PRIORITY_MIN));
    assert_eq!(Priority::try_new(PRIORITY_MAX).map(Priority::value), Ok(PRIORITY_MAX));
    for value in PRIORITY_MIN..=PRIORITY_MAX {
        assert!(Priority::try_new(value).is_ok(), "priority {value} should be valid");
    }
}

#[test]
fn created_task_tcb_retains_priority_and_budget() {
    let mut sched: Scheduler<1> = Scheduler::new();
    let priority = Priority::try_new(17).unwrap();
    let budget = WcetBudgetTicks(2500);
    let id = sched
        .create_task(priority, budget, OverrunPolicy::TripToSafeState, entry())
        .unwrap();
    let tcb = sched.tasks.free(id.0).expect("just-created task should be present");
    assert_eq!(tcb.priority(), priority);
    assert_eq!(tcb.wcet_budget(), budget);
    assert_eq!(tcb.entry(), TaskEntry(dummy_entry as usize));
}

#[test]
fn newly_created_task_starts_ready_and_is_selectable() {
    let mut sched: Scheduler<2> = Scheduler::new();
    let task = sched
        .create_task(low_priority(), BUDGET, OverrunPolicy::TripToSafeState, entry())
        .unwrap();
    assert_eq!(sched.state_of(task), Some(TaskState::Ready));
    assert_eq!(sched.highest_priority_ready(), Some(task));
}

#[test]
fn highest_priority_ready_selects_the_highest_priority_among_several() {
    let mut sched: Scheduler<4> = Scheduler::new();
    let low = sched
        .create_task(Priority::try_new(5).unwrap(), BUDGET, OverrunPolicy::TripToSafeState, entry())
        .unwrap();
    let high = sched
        .create_task(Priority::try_new(25).unwrap(), BUDGET, OverrunPolicy::TripToSafeState, entry())
        .unwrap();
    let medium = sched
        .create_task(Priority::try_new(15).unwrap(), BUDGET, OverrunPolicy::TripToSafeState, entry())
        .unwrap();
    let _ = (low, medium);

    assert_eq!(sched.highest_priority_ready(), Some(high));
}

#[test]
fn blocked_and_finished_tasks_are_never_selected() {
    let mut sched: Scheduler<4> = Scheduler::new();
    let blocked_high = sched
        .create_task(Priority::try_new(31).unwrap(), BUDGET, OverrunPolicy::TripToSafeState, entry())
        .unwrap();
    let finished_high = sched
        .create_task(Priority::try_new(30).unwrap(), BUDGET, OverrunPolicy::TripToSafeState, entry())
        .unwrap();
    let ready_low = sched
        .create_task(Priority::try_new(1).unwrap(), BUDGET, OverrunPolicy::TripToSafeState, entry())
        .unwrap();

    sched.set_state(blocked_high, TaskState::Blocked).unwrap();
    sched.set_state(finished_high, TaskState::Finished).unwrap();

    assert_eq!(sched.highest_priority_ready(), Some(ready_low));
}

#[test]
fn no_ready_task_selects_none() {
    let sched: Scheduler<2> = Scheduler::new();
    assert_eq!(sched.highest_priority_ready(), None);

    let mut sched: Scheduler<2> = Scheduler::new();
    let only = sched
        .create_task(low_priority(), BUDGET, OverrunPolicy::TripToSafeState, entry())
        .unwrap();
    sched.set_state(only, TaskState::Blocked).unwrap();
    assert_eq!(sched.highest_priority_ready(), None);
}

#[test]
fn state_of_and_set_state_against_an_unknown_task_fail_closed() {
    let mut sched: Scheduler<1> = Scheduler::new();
    let task = sched
        .create_task(low_priority(), BUDGET, OverrunPolicy::TripToSafeState, entry())
        .unwrap();
    sched.free_task_for_test(task);

    assert_eq!(sched.state_of(task), None);
    assert_eq!(sched.set_state(task, TaskState::Ready), None);
}

#[test]
fn a_newly_created_task_has_no_address_space_by_default() {
    let mut sched: Scheduler<1> = Scheduler::new();
    let task = sched
        .create_task(low_priority(), BUDGET, OverrunPolicy::TripToSafeState, entry())
        .unwrap();
    let tcb = sched.tasks.free(task.0).expect("just-created task should be present");
    assert_eq!(tcb.address_space(), None);
}

#[test]
fn set_address_space_attaches_a_cr3_value_to_a_task() {
    let mut sched: Scheduler<1> = Scheduler::new();
    let task = sched
        .create_task(low_priority(), BUDGET, OverrunPolicy::TripToSafeState, entry())
        .unwrap();
    assert_eq!(sched.set_address_space(task, 0x1234_5000), Some(()));
    let tcb = sched.tasks.free(task.0).expect("just-created task should be present");
    assert_eq!(tcb.address_space(), Some(0x1234_5000));
}

#[test]
fn set_address_space_against_an_unknown_task_fails_closed() {
    let mut sched: Scheduler<1> = Scheduler::new();
    let task = sched
        .create_task(low_priority(), BUDGET, OverrunPolicy::TripToSafeState, entry())
        .unwrap();
    sched.free_task_for_test(task);
    assert_eq!(sched.set_address_space(task, 0x1000), None);
}

// Inheritance raises the live priority, never lowers it, and release falls
// back to the base priority.
#[test]
fn inheritance_raises_and_release_restores_the_base_priority() {
    let mut sched: Scheduler<2> = Scheduler::new();
    let task = sched
        .create_task(Priority::try_new(10).unwrap(), BUDGET, OverrunPolicy::TripToSafeState, entry())
        .unwrap();
    assert_eq!(sched.inherit_priority(task, Priority::try_new(5).unwrap()), Some(()));
    assert_eq!(sched.live_priority_of(task), Priority::try_new(10).ok());
    assert_eq!(sched.inherit_priority(task, Priority::try_new(20).unwrap()), Some(()));
    assert_eq!(sched.live_priority_of(task), Priority::try_new(20).ok());
    assert_eq!(sched.base_priority_of(task), Priority::try_new(10).ok());
    assert_eq!(sched.release_inheritance(task), Priority::try_new(10).ok());
    assert_eq!(sched.inherited_priority_of(task), Some(None));
    assert_eq!(sched.live_priority_of(task), Priority::try_new(10).ok());
}

// Changing the base priority while boosted keeps the boost in force.
#[test]
fn a_base_change_under_a_boost_keeps_the_boost() {
    let mut sched: Scheduler<1> = Scheduler::new();
    let task = sched
        .create_task(Priority::try_new(4).unwrap(), BUDGET, OverrunPolicy::TripToSafeState, entry())
        .unwrap();
    sched.inherit_priority(task, Priority::try_new(20).unwrap()).unwrap();
    assert_eq!(sched.set_base_priority(task, Priority::try_new(8).unwrap()), Some(()));
    assert_eq!(sched.live_priority_of(task), Priority::try_new(20).ok());
    assert_eq!(sched.release_inheritance(task), Priority::try_new(8).ok());
}

// A degrade floor above the task's own priority is refused at creation.
#[test]
fn a_degrade_floor_above_the_priority_is_refused() {
    let mut sched: Scheduler<1> = Scheduler::new();
    let floor = Priority::try_new(9).unwrap();
    assert_eq!(
        sched.create_task(Priority::try_new(3).unwrap(), BUDGET, OverrunPolicy::Degrade(floor), entry()),
        Err(TaskCreateError::DegradeFloorAbovePriority)
    );
    assert_eq!(sched.highest_priority_ready(), None);
}

// Tick accounting saturates and is reset on demand.
#[test]
fn ticks_consumed_saturate_and_reset() {
    let mut sched: Scheduler<1> = Scheduler::new();
    let task = sched
        .create_task(low_priority(), BUDGET, OverrunPolicy::TripToSafeState, entry())
        .unwrap();
    assert_eq!(sched.add_ticks_consumed(task, 7), Some(7));
    assert_eq!(sched.add_ticks_consumed(task, u32::MAX), Some(u32::MAX));
    assert_eq!(sched.wcet_state(task), Some((u32::MAX, BUDGET)));
    assert_eq!(sched.reset_ticks_consumed(task), Some(()));
    assert_eq!(sched.wcet_state(task), Some((0, BUDGET)));
}

// Equal priorities resolve to the most recently created Ready task.
#[test]
fn equal_priority_ties_resolve_to_the_latest_created_task() {
    let mut sched: Scheduler<3> = Scheduler::new();
    let _first = sched
        .create_task(Priority::try_new(12).unwrap(), BUDGET, OverrunPolicy::TripToSafeState, entry())
        .unwrap();
    let second = sched
        .create_task(Priority::try_new(12).unwrap(), BUDGET, OverrunPolicy::TripToSafeState, entry())
        .unwrap();
    assert_eq!(sched.highest_priority_ready(), Some(second));
    assert_eq!(sched.iter_tasks().len(), 2);
}

// A task's declared overrun policy survives every scheduler call that
// leaves it live.
#[test]
fn the_declared_overrun_policy_never_changes() {
    let mut sched: Scheduler<4> = Scheduler::new();
    let floor = Priority::try_new(2).unwrap();
    let task = sched
        .create_task(Priority::try_new(5).unwrap(), BUDGET, OverrunPolicy::Degrade(floor), entry())
        .unwrap();
    let other = sched
        .create_task(low_priority(), BUDGET, OverrunPolicy::Restart, entry())
        .unwrap();
    sched.set_base_priority(task, Priority::try_new(9).unwrap()).unwrap();
    sched.inherit_priority(task, Priority::try_new(20).unwrap()).unwrap();
    sched.release_inheritance(task).unwrap();
    sched.add_ticks_consumed(task, 40).unwrap();
    sched.reset_ticks_consumed(task).unwrap();
    sched.set_state(task, TaskState::Blocked).unwrap();
    sched.set_address_space(task, 0x1000).unwrap();
    sched.free_task_for_test(other);
    assert_eq!(sched.overrun_policy_of(task), Some(OverrunPolicy::Degrade(floor)));
    assert_eq!(sched.overrun_policy_of(other), None);
}

// iter_tasks lists each live task once, in increasing slot order.
#[test]
fn iter_tasks_lists_live_tasks_once_in_slot_order() {
    let mut sched: Scheduler<4> = Scheduler::new();
    let a = sched.create_task(low_priority(), BUDGET, OverrunPolicy::Restart, entry()).unwrap();
    let b = sched.create_task(low_priority(), BUDGET, OverrunPolicy::Restart, entry()).unwrap();
    let c = sched.create_task(low_priority(), BUDGET, OverrunPolicy::Restart, entry()).unwrap();
    sched.free_task_for_test(b);
    let d = sched.create_task(low_priority(), BUDGET, OverrunPolicy::Restart, entry()).unwrap();
    sched.set_state(c, TaskState::Blocked).unwrap();
    let listed: Vec<_> = sched.iter_tasks().into_iter().map(|(id, tcb)| (id, tcb.state())).collect();
    assert_eq!(listed, vec![(a, TaskState::Ready), (d, TaskState::Ready), (c, TaskState::Blocked)]);
    assert_eq!(d.index(), 1, "the freed slot is claimed again");
    assert!(listed.windows(2).all(|pair| pair[0].0.index() < pair[1].0.index()));
}
