use lib::measure::{Calibration, CycleSource, Samples};
use lib::measure_phases::{
    phase_dispatch_select, phase_pool_alloc_free, phase_pool_alloc_free_batched, phase_pool_denial,
    phase_reference_loop, CALIBRATION_SAMPLES, SAMPLES,
};
use lib::sched::TaskEntry;
use std::cell::Cell;

/// Deterministic monotone source: every read advances a fixed step.
struct SteppingSource {
    now: Cell<u64>,
}

impl CycleSource for SteppingSource {
    fn read_cycles(&self) -> u64 {
        let value = self.now.get();
        self.now.set(value + 7);
        value
    }
}

fn harness() -> (SteppingSource, Calibration) {
    let source = SteppingSource { now: Cell::new(0) };
    let calibration = Calibration::measure(&source, CALIBRATION_SAMPLES);
    (source, calibration)
}

fn dispatch_yield_forever() {}

// Every workload phase fills the sample set exactly and reports success; the
// stepping source makes every timed region cost the same.
#[test]
fn every_workload_phase_fills_the_sample_set_and_reports_ok() {
    let (source, calibration) = harness();
    assert_eq!(calibration.overhead_cycles(), 7);
    let mut samples: Samples<SAMPLES> = Samples::new();

    assert!(phase_reference_loop(&source, &calibration, &mut samples));
    assert_eq!(samples.len(), SAMPLES);
    assert_eq!(samples.dropped(), 0);
    let summary = samples.summarize().unwrap();
    assert_eq!((summary.min, summary.max), (0, 0), "a start/stop pair is exactly the overhead");
    samples.clear();

    assert!(phase_pool_alloc_free(&source, &calibration, &mut samples));
    assert_eq!(samples.len(), SAMPLES);
    samples.clear();

    assert!(phase_pool_alloc_free_batched(&source, &calibration, &mut samples));
    assert_eq!(samples.len(), SAMPLES);
    samples.clear();

    assert!(phase_pool_denial(&source, &calibration, &mut samples));
    assert_eq!(samples.len(), SAMPLES);
    samples.clear();

    assert!(phase_dispatch_select(
        &source,
        &calibration,
        &mut samples,
        TaskEntry(dispatch_yield_forever as usize)
    ));
    assert_eq!(samples.len(), SAMPLES);
    assert_eq!(samples.dropped(), 0);
}

// A phase run into a buffer that is already full counts every sample it
// offers as dropped.
#[test]
fn a_phase_into_a_full_buffer_counts_every_sample_as_dropped() {
    let (source, calibration) = harness();
    let mut samples: Samples<SAMPLES> = Samples::new();
    assert!(phase_pool_alloc_free(&source, &calibration, &mut samples));
    assert!(phase_pool_alloc_free(&source, &calibration, &mut samples));
    assert_eq!(samples.len(), SAMPLES);
    assert_eq!(samples.dropped(), SAMPLES);
}
