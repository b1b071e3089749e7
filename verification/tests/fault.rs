use lib::fault::{
    audit, audit_double_fault, journal_fault, Disposition, FaultReport, FaultingContext,
    DOUBLE_FAULT_VECTOR,
};
use lib::sched::{OverrunPolicy, Priority, Scheduler, TaskEntry, TaskId, WcetBudgetTicks};
use lib::spoor::{Action, Actor, Category, Outcome, Spoor, SpoorJournal};

fn dummy_entry() {}

fn scheduler_with(count: usize) -> (Scheduler<8>, [TaskId; 8]) {
    let mut scheduler: Scheduler<8> = Scheduler::new();
    let priority = Priority::try_new(4).expect("4 is a valid priority");
    let mut ids = [None; 8];
    for slot in ids.iter_mut().take(count) {
        *slot = Some(
            scheduler
                .create_task(
                    priority,
                    WcetBudgetTicks(1_000),
                    OverrunPolicy::TripToSafeState,
                    TaskEntry(dummy_entry as usize),
                )
                .expect("slot available"),
        );
    }
    let first = ids[0].expect("at least one task");
    (scheduler, ids.map(|id| id.unwrap_or(first)))
}

#[test]
fn a_fault_in_a_task_terminates_that_task_only() {
    let (_scheduler, tasks) = scheduler_with(3);
    for vector in [6u64, 13, 14] {
        let report = FaultReport { vector, context: FaultingContext::Task(tasks[1]) };
        assert_eq!(Disposition::of(&report), Disposition::TerminateTask(tasks[1]));
        assert!(Disposition::of(&report).system_survives());
    }
}

#[test]
fn a_fault_in_kernel_context_halts_the_system() {
    for vector in [6u64, 13, 14] {
        let report = FaultReport { vector, context: FaultingContext::Kernel };
        assert_eq!(Disposition::of(&report), Disposition::HaltSystem);
        assert!(!Disposition::of(&report).system_survives());
    }
}

#[test]
fn the_vector_is_recorded_but_never_changes_the_decision() {
    let (_scheduler, tasks) = scheduler_with(2);
    let victim = FaultingContext::Task(tasks[0]);
    let baseline = Disposition::of(&FaultReport { vector: 14, context: victim });
    for vector in [0u64, 6, 8, 13, 14, 255, u64::MAX] {
        assert_eq!(
            Disposition::of(&FaultReport { vector, context: victim }),
            baseline,
            "vector {vector} changed the disposition"
        );
    }
}

#[test]
fn every_task_is_contained_to_itself() {
    let (_scheduler, tasks) = scheduler_with(4);
    for task in tasks.iter().take(4) {
        let report = FaultReport { vector: 13, context: FaultingContext::Task(*task) };
        assert_eq!(Disposition::of(&report), Disposition::TerminateTask(*task));
    }
}

#[test]
fn a_contained_fault_audits_as_a_failed_fault_with_a_successful_disposition() {
    let (_scheduler, tasks) = scheduler_with(4);
    let victim = tasks[3];
    let report = FaultReport { vector: 14, context: FaultingContext::Task(victim) };
    let [captured, decided] = audit(&report, Disposition::of(&report));

    assert_eq!(captured.category(), Category::Fault);
    assert_eq!(captured.who(), Actor::Kernel);
    assert_eq!(captured.action(), Action::Fault);
    assert_eq!(captured.outcome(), Outcome::Failed);
    assert_eq!(captured.target(), victim.index() as u16);

    assert_eq!(decided.action(), Action::Terminate);
    assert_eq!(decided.outcome(), Outcome::Success);
    assert_eq!(decided.target(), victim.index() as u16);
}

#[test]
fn an_uncontained_fault_audits_its_disposition_as_failed_too() {
    let report = FaultReport { vector: 13, context: FaultingContext::Kernel };
    let [captured, decided] = audit(&report, Disposition::of(&report));
    assert_eq!(captured.outcome(), Outcome::Failed);
    assert_eq!(decided.action(), Action::Terminate);
    assert_eq!(decided.outcome(), Outcome::Failed);
}

#[test]
fn a_fault_spoor_carries_no_address_and_no_error_code() {
    let (_scheduler, tasks) = scheduler_with(2);
    let report = FaultReport { vector: 14, context: FaultingContext::Task(tasks[1]) };
    let first = audit(&report, Disposition::of(&report));
    assert_eq!(first, audit(&report, Disposition::of(&report)));
    assert_eq!(first[0].cost(), 14);
    assert_eq!(first[0].target(), tasks[1].index() as u16);
}

#[test]
fn a_double_fault_never_audits_as_contained_whatever_was_running() {
    let (_scheduler, tasks) = scheduler_with(3);
    for context in [FaultingContext::Task(tasks[2]), FaultingContext::Kernel] {
        let [captured, decided] = audit_double_fault(context);
        assert_eq!(captured.category(), Category::Fault);
        assert_eq!(captured.action(), Action::Fault);
        assert_eq!(captured.outcome(), Outcome::Failed);
        assert_eq!(decided.action(), Action::Terminate);
        assert_eq!(
            decided.outcome(),
            Outcome::Failed,
            "a double fault inside a task is still not a contained fault"
        );
        assert_eq!(captured.cost(), DOUBLE_FAULT_VECTOR as u32);
    }
}

#[test]
fn a_double_fault_records_which_task_was_running() {
    let (_scheduler, tasks) = scheduler_with(4);
    let [captured, decided] = audit_double_fault(FaultingContext::Task(tasks[3]));
    assert_eq!(captured.target(), tasks[3].index() as u16);
    assert_eq!(decided.target(), tasks[3].index() as u16);
    let [kernel_captured, _] = audit_double_fault(FaultingContext::Kernel);
    assert_eq!(kernel_captured.target(), 0);
}

#[test]
fn the_double_fault_vector_does_not_reach_the_containment_policy() {
    assert_eq!(DOUBLE_FAULT_VECTOR, 8);
    let (_scheduler, tasks) = scheduler_with(2);
    let victim = FaultingContext::Task(tasks[0]);
    assert_eq!(
        Disposition::of(&FaultReport { vector: DOUBLE_FAULT_VECTOR, context: victim }),
        Disposition::of(&FaultReport { vector: 14, context: victim }),
        "the policy must still be blind to the vector"
    );
}

#[test]
fn double_fault_spoors_round_trip_through_the_journal_encoding() {
    let (_scheduler, tasks) = scheduler_with(6);
    for spoor in audit_double_fault(FaultingContext::Task(tasks[4])) {
        let decoded = Spoor::decode(spoor.to_bits()).expect("a stamped spoor must decode");
        assert_eq!(decoded.category(), Category::Fault);
        assert_eq!(decoded.outcome(), Outcome::Failed);
        assert_eq!(decoded.target(), tasks[4].index() as u16);
    }
}

#[test]
fn fault_spoors_round_trip_through_the_journal_encoding() {
    let (_scheduler, tasks) = scheduler_with(6);
    let report = FaultReport { vector: 6, context: FaultingContext::Task(tasks[5]) };
    for spoor in audit(&report, Disposition::of(&report)) {
        let decoded = Spoor::decode(spoor.to_bits()).expect("a stamped spoor must decode");
        assert_eq!(decoded.category(), Category::Fault);
        assert_eq!(decoded.who(), Actor::Kernel);
        assert_eq!(decoded.outcome(), spoor.outcome());
        assert_eq!(decoded.target(), tasks[5].index() as u16);
    }
}

// A spoor packs into exactly the documented bit layout and decodes back.
#[test]
fn a_spoor_packs_into_its_documented_bit_layout() {
    let spoor = Spoor::stamp(Category::Lock, Actor::Kernel, Action::Boost, Outcome::Success, 3, 25);
    let bits = spoor.to_bits();
    assert_eq!(bits & 0xF, 2, "category code");
    assert_eq!((bits >> 4) & 0xF, 1, "actor code");
    assert_eq!((bits >> 8) & 0xF, 3, "action code");
    assert_eq!((bits >> 12) & 0xF, 1, "outcome code");
    assert_eq!((bits >> 16) & 0xFFFF, 3, "target");
    assert_eq!(bits >> 32, 25, "cost");
    assert_eq!(Spoor::decode(bits), Some(spoor));
}

// A word with an unused code in any field is not a spoor.
#[test]
fn a_word_with_an_unknown_code_does_not_decode() {
    assert_eq!(Spoor::decode(0), None);
    let valid = Spoor::stamp(Category::Fault, Actor::Kernel, Action::Fault, Outcome::Failed, 0, 0).to_bits();
    assert_eq!(Spoor::decode(valid | 0xF), None);
}

// A kernel-context fault halts, and its audit pair lands in the journal in
// order; a journal with room for one keeps the newer record, the decision.
#[test]
fn a_kernel_fault_is_journalled_capture_first() {
    let report = FaultReport { vector: 13, context: FaultingContext::Kernel };
    let mut journal: SpoorJournal<64> = SpoorJournal::new();
    assert_eq!(journal_fault(&mut journal, &report), (Disposition::HaltSystem, 2));
    assert_eq!(journal.entries(), audit(&report, Disposition::HaltSystem).to_vec());

    let mut small: SpoorJournal<1> = SpoorJournal::new();
    assert_eq!(journal_fault(&mut small, &report), (Disposition::HaltSystem, 1));
    assert_eq!(small.entries()[0].action(), Action::Terminate);
}
