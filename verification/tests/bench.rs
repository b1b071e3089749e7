use lib::bench::{
    collect, emit_all, phase_denial_exhausted, phase_denial_invalid_handle, phase_occupancy_best,
    phase_occupancy_deny_then_recover, phase_occupancy_free, phase_occupancy_last,
    phase_occupancy_middle, phase_primary_alloc_free, phase_tail, run_occupancy_phase, Measured,
    MAX_SAMPLES, METRICS, OCCUPANCY_TRIALS, PRIMARY_SAMPLES, TAIL_SAMPLES,
};
use lib::measure::{Calibration, CycleSource, Environment, Samples, Summary};
use std::cell::Cell;

/// Every read advances a fixed step.
struct SteppingSource {
    now: Cell<u64>,
}

impl CycleSource for SteppingSource {
    fn read_cycles(&self) -> u64 {
        let value = self.now.get();
        self.now.set(value + 3);
        value
    }
}

fn harness() -> (SteppingSource, Calibration) {
    let source = SteppingSource { now: Cell::new(0) };
    let calibration = Calibration::measure(&source, 100);
    (source, calibration)
}

// Every pool phase passes its own self-check and offers exactly its sample
// count; collecting summarizes and clears for the next phase.
#[test]
fn every_pool_phase_passes_and_collects() {
    let (source, calibration) = harness();
    let mut buffer: Samples<MAX_SAMPLES> = Samples::new();
    let mut collected: [Option<Measured>; METRICS] = [None; METRICS];

    assert!(phase_primary_alloc_free(&source, &calibration, &mut buffer));
    assert_eq!(buffer.len(), PRIMARY_SAMPLES);
    assert!(collect(&mut collected, 0, "primary", 500, &mut buffer));
    assert!(buffer.is_empty());
    let measured = collected[0].expect("collected");
    assert_eq!((measured.name, measured.warmup, measured.summary.n), ("primary", 500, PRIMARY_SAMPLES));
    assert_eq!(measured.summary.max, 0, "a stepping source times every region at its overhead");

    assert!(phase_tail(&source, &calibration, &mut buffer));
    assert_eq!(buffer.len(), TAIL_SAMPLES);
    buffer.clear();

    for phase in [
        phase_occupancy_best::<SteppingSource>,
        phase_occupancy_middle::<SteppingSource>,
        phase_occupancy_last::<SteppingSource>,
        phase_occupancy_free::<SteppingSource>,
        phase_occupancy_deny_then_recover::<SteppingSource>,
        phase_denial_exhausted::<SteppingSource>,
        phase_denial_invalid_handle::<SteppingSource>,
    ] {
        assert!(phase(&source, &calibration, &mut buffer));
        assert_eq!(buffer.len(), OCCUPANCY_TRIALS);
        buffer.clear();
    }
    assert!(!collect(&mut collected, 1, "empty", 0, &mut buffer), "an empty phase collects nothing");
    assert!(collected[1].is_none());
}

// A full prefill leaves no slot, so every trial fails but is still timed;
// a prefill beyond the pool gives up before sampling.
#[test]
fn an_occupancy_phase_with_no_free_slot_fails() {
    let (source, calibration) = harness();
    let mut buffer: Samples<MAX_SAMPLES> = Samples::new();
    assert!(!run_occupancy_phase(&source, &calibration, 64, &mut buffer));
    assert_eq!(buffer.len(), OCCUPANCY_TRIALS);
    buffer.clear();
    assert!(!run_occupancy_phase(&source, &calibration, 65, &mut buffer));
    assert!(buffer.is_empty());
}

// The whole report of the collected phases: one METRIC line per filled slot,
// in slot order, and an END line whose count is exactly that many.
#[test]
fn emit_all_reports_each_collected_phase_once_in_slot_order() {
    let mut collected: [Option<Measured>; METRICS] = [None; METRICS];
    let summary = Summary { n: 3, dropped: 1, min: 2, p50: 5, p99: 9, p99_9: 9, max: 9 };
    collected[4] = Some(Measured { name: "later", warmup: 0, summary });
    collected[1] = Some(Measured { name: "earlier", warmup: 500, summary });
    let environment = Environment {
        tier: "T0",
        arch: "x86_64",
        cycle_source: "test",
        overhead_cycles: 7,
        cycles_per_us: None,
    };
    let mut sink = String::from("prefix\n");
    assert_eq!(emit_all(&mut sink, &environment, &collected), Some(2));
    assert_eq!(
        sink,
        "prefix\n\
         TINYOS-MEAS/1 BEGIN tier=T0 arch=x86_64 cycle_source=test overhead_cycles=7 \
         cycles_per_us=unknown\n\
         TINYOS-MEAS/1 METRIC domain=D07 metric=earlier n=3 dropped=1 warmup=500 min=2 p50=5 \
         p99=9 p99_9=9 max=9 unit=cycles\n\
         TINYOS-MEAS/1 METRIC domain=D07 metric=later n=3 dropped=1 warmup=0 min=2 p50=5 \
         p99=9 p99_9=9 max=9 unit=cycles\n\
         TINYOS-MEAS/1 END metrics=2\n"
    );
}

#[test]
fn emit_all_with_nothing_collected_still_closes_the_envelope() {
    let collected: [Option<Measured>; METRICS] = [None; METRICS];
    let environment = Environment {
        tier: "T0",
        arch: "x86_64",
        cycle_source: "test",
        overhead_cycles: 0,
        cycles_per_us: Some(3),
    };
    let mut sink = String::new();
    assert_eq!(emit_all(&mut sink, &environment, &collected), Some(0));
    assert_eq!(sink.matches("METRIC").count(), 0);
    assert!(sink.ends_with("TINYOS-MEAS/1 END metrics=0\n"));
}
