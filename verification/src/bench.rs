//! Pool workloads measured through the [`Stopwatch`] harness: round trips,
//! allocation at chosen occupancy depths, frees, exhaustion and recovery,
//! and the two denial paths, each with the self-check that the workload
//! behaved as the pool's contract says it must. Occupancy snapshots of a
//! four-slot pool show a denied call changed nothing.

use vstd::prelude::*;
use crate::measure::{
    Calibration,
    CycleSource,
    Environment,
    Metric,
    Report,
    Samples,
    Stopwatch,
    Summary,
    lemma_offered_none,
    offer,
    offered,
    begin_line,
    metric_lines,
    report_text,
    summary_of,
};
use crate::mem::{Pool, PoolError, PoolHandle};
use crate::sorting::sorted;

verus! {

/// Whether slot `k` of `pool` holds a value.
pub open spec fn slot_occupied(pool: &Pool<u64, 4>, k: int) -> bool {
    k < pool.slots@.len() && pool.slots@[k].value is Some
}

/// The value slot `k` of `pool` holds, or zero when it holds none.
pub open spec fn slot_value(pool: &Pool<u64, 4>, k: int) -> u64 {
    if slot_occupied(pool, k) {
        pool.slots@[k].value->Some_0
    } else {
        0
    }
}

/// Which of the four slots of `pool` are occupied, and the value each holds
/// (zero for a free slot).
pub fn snapshot4(pool: &Pool<u64, 4>) -> (r: ([bool; 4], [u64; 4]))
    ensures
        forall|k: int| 0 <= k < 4 ==> (#[trigger] r.0@[k]) == slot_occupied(pool, k),
        forall|k: int| 0 <= k < 4 ==> (#[trigger] r.1@[k]) == slot_value(pool, k),
{
    let mut occupied: [bool; 4] = [false; 4];
    let mut values: [u64; 4] = [0u64; 4];
    let mut k: usize = 0;
    while k < 4
        invariant
            k <= 4,
            occupied@.len() == 4,
            values@.len() == 4,
            forall|j: int| 0 <= j < k ==> (#[trigger] occupied@[j]) == slot_occupied(pool, j),
            forall|j: int| 0 <= j < k ==> (#[trigger] values@[j]) == slot_value(pool, j),
            forall|j: int| k <= j < 4 ==> !(#[trigger] occupied@[j]),
            forall|j: int| k <= j < 4 ==> (#[trigger] values@[j]) == 0,
        decreases 4 - k,
    {
        let ghost before_occupied = occupied@;
        let ghost before_values = values@;
        if k < pool.slots.len() {
            match &pool.slots[k].value {
                Some(v) => {
                    occupied[k] = true;
                    values[k] = *v;
                },
                None => {},
            }
        }
        assert(forall|j: int|
            0 <= j < 4 && j != k ==> occupied@[j] == before_occupied[j] && values@[j]
                == before_values[j]);
        k = k + 1;
    }
    (occupied, values)
}

/// Whether two snapshots agree slot by slot, on occupancy and on value.
pub fn snapshots4_equal(a: &([bool; 4], [u64; 4]), b: &([bool; 4], [u64; 4])) -> (r: bool)
    ensures
        r == (a.0@ == b.0@ && a.1@ == b.1@),
{
    let mut k: usize = 0;
    while k < 4
        invariant
            k <= 4,
            forall|j: int| 0 <= j < k ==> a.0@[j] == b.0@[j] && a.1@[j] == b.1@[j],
        decreases 4 - k,
    {
        if a.0[k] != b.0[k] || a.1[k] != b.1[k] {
            assert(a.0@[k as int] != b.0@[k as int] || a.1@[k as int] != b.1@[k as int]);
            return false;
        }
        k = k + 1;
    }
    assert(a.0@ =~= b.0@);
    assert(a.1@ =~= b.1@);
    true
}


/// Capacity of the shared sample buffer: the largest phase's sample count.
pub const MAX_SAMPLES: usize = 50000;

/// Measured round trips of the primary alloc/free phase.
pub const PRIMARY_SAMPLES: usize = 10000;

/// Unmeasured round trips before the primary phase samples.
pub const PRIMARY_WARMUP: usize = 500;

/// Measured round trips of the tail phase.
pub const TAIL_SAMPLES: usize = 50000;

/// Unmeasured round trips before the tail phase samples.
pub const TAIL_WARMUP: usize = 500;

/// Trials per occupancy and denial phase.
pub const OCCUPANCY_TRIALS: usize = 2000;

/// Fill-and-drain cycles of the drop-accounting phase.
pub const DRAIN_CYCLES: usize = 200;

/// Slots of the pool the drop-accounting phase fills.
pub const DRAIN_N: usize = 16;

/// Percentile-reporting phases in one run.
pub const METRICS: usize = 9;

/// One measured phase's summary, kept until the whole report is written.
#[derive(Debug, Clone, Copy)]
pub struct Measured {
    /// The metric name.
    pub name: &'static str,
    /// Unmeasured iterations before sampling.
    pub warmup: usize,
    /// The percentiles.
    pub summary: Summary,
}

/// Summarizes the phase's samples into `collected[slot]` and clears the
/// buffer for the next phase. A phase that recorded nothing collects
/// nothing and reports `false`.
pub fn collect(
    collected: &mut [Option<Measured>; METRICS],
    slot: usize,
    name: &'static str,
    warmup: usize,
    samples: &mut Samples<MAX_SAMPLES>,
) -> (r: bool)
    requires
        slot < METRICS,
    ensures
        r == (old(samples).recorded().len() > 0),
        final(samples).recorded() == Seq::<u64>::empty(),
        final(samples).dropped() == 0,
        r ==> final(collected)@ == old(collected)@.update(
            slot as int,
            Some(
                Measured {
                    name,
                    warmup,
                    summary: summary_of(sorted(old(samples).recorded()), old(samples).dropped()),
                },
            ),
        ),
        !r ==> final(collected)@ == old(collected)@,
{
    let summarized = samples.summarize();
    samples.clear();
    match summarized {
        Some(summary) => {
            collected[slot] = Some(Measured { name, warmup, summary });
            true
        },
        None => false,
    }
}

/// The performance domain every pool metric is evidence for.
pub const POOL_DOMAIN: &'static str = "D07";

/// The `METRIC` a collected phase is reported as.
pub open spec fn reported(measured: Measured) -> Metric<'static> {
    Metric {
        domain: POOL_DOMAIN,
        name: measured.name,
        warmup: measured.warmup,
        summary: measured.summary,
    }
}

/// The collected phases as metrics, in slot order, skipping empty slots.
pub open spec fn present(collected: Seq<Option<Measured>>) -> Seq<Metric<'static>>
    decreases collected.len(),
{
    if collected.len() == 0 {
        Seq::empty()
    } else {
        let earlier = present(collected.drop_last());
        match collected.last() {
            Some(measured) => earlier.push(reported(measured)),
            None => earlier,
        }
    }
}

/// No more metrics are present than there are slots.
proof fn lemma_present_len(collected: Seq<Option<Measured>>)
    ensures
        present(collected).len() <= collected.len(),
    decreases collected.len(),
{
    if collected.len() > 0 {
        lemma_present_len(collected.drop_last());
    }
}

/// Writes the whole report of the collected phases: the `BEGIN` line, one
/// `METRIC` line per collected phase in slot order, and the `END` line,
/// whose count (returned) is exactly the number of `METRIC` lines written.
pub fn emit_all(
    sink: &mut String,
    environment: &Environment<'_>,
    collected: &[Option<Measured>; METRICS],
) -> (r: Option<usize>)
    ensures
        r == Some(present(collected@).len() as usize),
        final(sink)@ == old(sink)@ + report_text(*environment, present(collected@)),
{
    let mut report = match Report::begin(sink, environment) {
        Ok(report) => report,
        Err(_) => return None,
    };
    let mut i: usize = 0;
    while i < METRICS
        invariant
            i <= METRICS,
            report.emitted == present(collected@.take(i as int)).len(),
            (*report.sink)@ == old(sink)@ + begin_line(*environment) + metric_lines(
                present(collected@.take(i as int)),
            ),
            after_borrow(*sink) == *final(report.sink),
        decreases METRICS - i,
    {
        let ghost before = collected@.take(i as int);
        let ghost after = collected@.take(i + 1);
        proof {
            assert(after.drop_last() =~= before);
            lemma_present_len(before);
        }
        match &collected[i] {
            Some(measured) => {
                let metric = Metric {
                    domain: POOL_DOMAIN,
                    name: measured.name,
                    warmup: measured.warmup,
                    summary: measured.summary,
                };
                match report.metric(&metric) {
                    Ok(()) => {},
                    Err(_) => return None,
                }
                proof {
                    assert(present(after) == present(before).push(metric));
                    assert(present(after).drop_last() =~= present(before));
                }
            },
            None => {},
        }
        i = i + 1;
    }
    proof {
        assert(collected@.take(METRICS as int) =~= collected@);
    }
    match report.end() {
        Ok(count) => Some(count),
        Err(_) => None,
    }
}

/// Whether every slot of `pool` is free at generation 0, as a new pool is.
pub open spec fn fresh<const N: usize>(pool: Pool<u64, N>) -> bool {
    &&& pool.slots@.len() == N
    &&& forall|i: int|
        0 <= i < N ==> (#[trigger] pool.slots@[i]).value is None && pool.slots@[i].generation == 0
}

/// `warmup` unmeasured and then `samples` measured alloc/free round trips on
/// a new pool. Every round trip succeeds and gives back the value stored.
fn run_alloc_free_phase<S: CycleSource>(
    pool: &mut Pool<u64, 64>,
    source: &S,
    calibration: &Calibration,
    warmup: usize,
    samples: usize,
    buffer: &mut Samples<MAX_SAMPLES>,
) -> (r: bool)
    requires
        fresh(*old(pool)),
        warmup + samples <= usize::MAX,
        old(buffer).dropped() + samples <= usize::MAX,
    ensures
        r,
        offered(*old(buffer), *final(buffer), samples as nat),
{
    let ghost start = *buffer;
    proof {
        lemma_offered_none(start);
    }
    let mut ok = true;
    let total: usize = warmup + samples;
    let mut index: usize = 0;
    while index < total
        invariant
            total == warmup + samples,
            index <= total,
            ok,
            pool.slots@.len() == 64,
            pool.slots@[0].value is None,
            pool.slots@[0].generation == index,
            start.dropped() + samples <= usize::MAX,
            offered(start, *buffer, (if index > warmup { index - warmup } else { 0 }) as nat),
        decreases total - index,
    {
        let value = index as u64;
        let ghost before = *pool;
        assert(before.claimable(0));
        let watch = Stopwatch::start(source);
        let handle = match pool.allocate(value) {
            Ok(handle) => handle,
            Err(_) => {
                ok = false;
                index = index + 1;
                continue;
            },
        };
        assert(handle.index == 0) by {
            if handle.index > 0 {
                assert(!before.claimable(0));
            }
        };
        let freed = pool.free(handle);
        let cycles = watch.stop(calibration);
        match freed {
            Ok(v) => {
                if v != value {
                    ok = false;
                }
            },
            Err(_) => {
                ok = false;
            },
        }
        if index >= warmup {
            offer(buffer, cycles, Ghost(start), Ghost((index - warmup) as nat));
        }
        index = index + 1;
    }
    ok
}

/// The primary alloc/free round-trip phase on a `Pool<u64, 64>`.
pub fn phase_primary_alloc_free<S: CycleSource>(
    source: &S,
    calibration: &Calibration,
    buffer: &mut Samples<MAX_SAMPLES>,
) -> (r: bool)
    requires
        old(buffer).dropped() + PRIMARY_SAMPLES <= usize::MAX,
    ensures
        r,
        offered(*old(buffer), *final(buffer), PRIMARY_SAMPLES as nat),
{
    let mut pool: Pool<u64, 64> = Pool::new();
    run_alloc_free_phase(&mut pool, source, calibration, PRIMARY_WARMUP, PRIMARY_SAMPLES, buffer)
}

/// The tail phase: the same round trip, sampled [`TAIL_SAMPLES`] times.
pub fn phase_tail<S: CycleSource>(
    source: &S,
    calibration: &Calibration,
    buffer: &mut Samples<MAX_SAMPLES>,
) -> (r: bool)
    requires
        old(buffer).dropped() + TAIL_SAMPLES <= usize::MAX,
    ensures
        r,
        offered(*old(buffer), *final(buffer), TAIL_SAMPLES as nat),
{
    let mut pool: Pool<u64, 64> = Pool::new();
    run_alloc_free_phase(&mut pool, source, calibration, TAIL_WARMUP, TAIL_SAMPLES, buffer)
}

/// With `prefill` slots of a `Pool<u64, 64>` permanently occupied, times
/// [`OCCUPANCY_TRIALS`] allocations, each landing at slot `prefill` and freed
/// again. Succeeds exactly when a slot is left free (`prefill < 64`); with
/// more than 64 to prefill it gives up before sampling anything.
pub fn run_occupancy_phase<S: CycleSource>(
    source: &S,
    calibration: &Calibration,
    prefill: usize,
    buffer: &mut Samples<MAX_SAMPLES>,
) -> (r: bool)
    requires
        old(buffer).dropped() + OCCUPANCY_TRIALS <= usize::MAX,
    ensures
        r == (prefill < 64),
        offered(
            *old(buffer),
            *final(buffer),
            (if prefill <= 64 {
                OCCUPANCY_TRIALS
            } else {
                0
            }) as nat,
        ),
{
    let ghost start = *buffer;
    proof {
        lemma_offered_none(start);
    }
    let mut pool: Pool<u64, 64> = Pool::new();
    let mut i: usize = 0;
    while i < prefill
        invariant
            i <= prefill,
            i <= 64,
            *buffer == start,
            pool.slots@.len() == 64,
            forall|j: int| 0 <= j < i ==> (#[trigger] pool.slots@[j]).value == Some(j as u64),
            forall|j: int|
                i <= j < 64 ==> (#[trigger] pool.slots@[j]).value is None
                    && pool.slots@[j].generation == 0,
        decreases prefill - i,
    {
        let ghost before = pool;
        if i < 64 {
            assert(before.claimable(i as int));
        }
        match pool.allocate(i as u64) {
            Ok(handle) => {
                assert(handle.index == i) by {
                    if handle.index < i {
                        assert(before.slots@[handle.index as int].value is Some);
                    } else if handle.index > i {
                        assert(!before.claimable(i as int));
                    }
                };
            },
            Err(_) => {
                proof {
                    lemma_offered_none(start);
                }
                return false;
            },
        }
        i = i + 1;
    }
    let mut ok = prefill < 64;
    let mut index: usize = 0;
    while index < OCCUPANCY_TRIALS
        invariant
            index <= OCCUPANCY_TRIALS,
            i == prefill,
            prefill <= 64,
            ok == (prefill < 64),
            pool.slots@.len() == 64,
            forall|j: int| 0 <= j < prefill ==> (#[trigger] pool.slots@[j]).value == Some(j as u64),
            prefill < 64 ==> pool.slots@[prefill as int].value is None
                && pool.slots@[prefill as int].generation == index,
            forall|j: int|
                prefill < j < 64 ==> (#[trigger] pool.slots@[j]).value is None
                    && pool.slots@[j].generation == 0,
            start.dropped() + OCCUPANCY_TRIALS <= usize::MAX,
            offered(start, *buffer, index as nat),
        decreases OCCUPANCY_TRIALS - index,
    {
        let ghost before = pool;
        if prefill < 64 {
            assert(before.claimable(prefill as int));
        }
        let watch = Stopwatch::start(source);
        let handle = pool.allocate(index as u64);
        let cycles = watch.stop(calibration);
        match handle {
            Ok(handle) => {
                assert(handle.index == prefill) by {
                    if handle.index < prefill {
                        assert(before.slots@[handle.index as int].value is Some);
                    } else if handle.index > prefill {
                        assert(!before.claimable(prefill as int));
                    }
                };
                if pool.free(handle).is_err() {
                    ok = false;
                }
            },
            Err(_) => {
                ok = false;
            },
        }
        offer(buffer, cycles, Ghost(start), Ghost(index as nat));
        index = index + 1;
    }
    ok
}

/// Occupancy best case: slot 0 free.
pub fn phase_occupancy_best<S: CycleSource>(
    source: &S,
    calibration: &Calibration,
    buffer: &mut Samples<MAX_SAMPLES>,
) -> (r: bool)
    requires
        old(buffer).dropped() + OCCUPANCY_TRIALS <= usize::MAX,
    ensures
        r,
        offered(*old(buffer), *final(buffer), OCCUPANCY_TRIALS as nat),
{
    run_occupancy_phase(source, calibration, 0, buffer)
}

/// Occupancy middle case: slots 0 to 30 taken.
pub fn phase_occupancy_middle<S: CycleSource>(
    source: &S,
    calibration: &Calibration,
    buffer: &mut Samples<MAX_SAMPLES>,
) -> (r: bool)
    requires
        old(buffer).dropped() + OCCUPANCY_TRIALS <= usize::MAX,
    ensures
        r,
        offered(*old(buffer), *final(buffer), OCCUPANCY_TRIALS as nat),
{
    run_occupancy_phase(source, calibration, 31, buffer)
}

/// Occupancy worst case: only the last slot free, the full scan.
pub fn phase_occupancy_last<S: CycleSource>(
    source: &S,
    calibration: &Calibration,
    buffer: &mut Samples<MAX_SAMPLES>,
) -> (r: bool)
    requires
        old(buffer).dropped() + OCCUPANCY_TRIALS <= usize::MAX,
    ensures
        r,
        offered(*old(buffer), *final(buffer), OCCUPANCY_TRIALS as nat),
{
    run_occupancy_phase(source, calibration, 63, buffer)
}

/// The free path alone: each trial allocates untimed and times the free.
/// Every free succeeds.
pub fn phase_occupancy_free<S: CycleSource>(
    source: &S,
    calibration: &Calibration,
    buffer: &mut Samples<MAX_SAMPLES>,
) -> (r: bool)
    requires
        old(buffer).dropped() + OCCUPANCY_TRIALS <= usize::MAX,
    ensures
        r,
        offered(*old(buffer), *final(buffer), OCCUPANCY_TRIALS as nat),
{
    let ghost start = *buffer;
    proof {
        lemma_offered_none(start);
    }
    let mut pool: Pool<u64, 64> = Pool::new();
    let mut ok = true;
    let mut index: usize = 0;
    while index < OCCUPANCY_TRIALS
        invariant
            index <= OCCUPANCY_TRIALS,
            ok,
            pool.slots@.len() == 64,
            pool.slots@[0].value is None,
            pool.slots@[0].generation == index,
            start.dropped() + OCCUPANCY_TRIALS <= usize::MAX,
            offered(start, *buffer, index as nat),
        decreases OCCUPANCY_TRIALS - index,
    {
        let ghost before = pool;
        assert(before.claimable(0));
        let handle = match pool.allocate(index as u64) {
            Ok(handle) => handle,
            Err(_) => return false,
        };
        assert(handle.index == 0) by {
            if handle.index > 0 {
                assert(!before.claimable(0));
            }
        };
        let watch = Stopwatch::start(source);
        let freed = pool.free(handle);
        let cycles = watch.stop(calibration);
        if freed.is_err() {
            ok = false;
        }
        offer(buffer, cycles, Ghost(start), Ghost(index as nat));
        index = index + 1;
    }
    ok
}

/// Exhaustion then recovery: with all 64 slots taken, each timed trial is a
/// refused allocation, a free of the most recent handle, and an allocation
/// that lands in the slot just freed. The refusal is always `Exhausted` and
/// the free and the recovery always succeed.
pub fn phase_occupancy_deny_then_recover<S: CycleSource>(
    source: &S,
    calibration: &Calibration,
    buffer: &mut Samples<MAX_SAMPLES>,
) -> (r: bool)
    requires
        old(buffer).dropped() + OCCUPANCY_TRIALS <= usize::MAX,
    ensures
        r,
        offered(*old(buffer), *final(buffer), OCCUPANCY_TRIALS as nat),
{
    let ghost start = *buffer;
    proof {
        lemma_offered_none(start);
    }
    let mut pool: Pool<u64, 64> = Pool::new();
    let mut handles: [Option<PoolHandle>; 64] = [None; 64];
    let mut i: usize = 0;
    while i < 64
        invariant
            i <= 64,
            handles@.len() == 64,
            pool.slots@.len() == 64,
            forall|j: int|
                0 <= j < i ==> {
                    &&& (#[trigger] pool.slots@[j]).value is Some
                    &&& pool.slots@[j].generation == 1
                    &&& handles@[j] == Some(PoolHandle { index: j as usize, generation: 1 })
                },
            forall|j: int|
                i <= j < 64 ==> (#[trigger] pool.slots@[j]).value is None
                    && pool.slots@[j].generation == 0,
        decreases 64 - i,
    {
        let ghost before = pool;
        assert(before.claimable(i as int));
        match pool.allocate(i as u64) {
            Ok(handle) => {
                assert(handle.index == i) by {
                    if handle.index < i {
                        assert(before.slots@[handle.index as int].value is Some);
                    } else if handle.index > i {
                        assert(!before.claimable(i as int));
                    }
                };
                handles[i] = Some(handle);
            },
            Err(_) => return false,
        }
        i = i + 1;
    }
    let mut top: usize = 64;
    let mut ok = true;
    let mut trial: usize = 0;
    while trial < OCCUPANCY_TRIALS
        invariant
            trial <= OCCUPANCY_TRIALS,
            top == 64,
            ok,
            handles@.len() == 64,
            pool.slots@.len() == 64,
            forall|j: int|
                0 <= j < 64 ==> {
                    &&& (#[trigger] pool.slots@[j]).value is Some
                    &&& handles@[j] == Some(
                        PoolHandle { index: j as usize, generation: pool.slots@[j].generation },
                    )
                },
            pool.slots@[63].generation == 1 + trial,
            start.dropped() + OCCUPANCY_TRIALS <= usize::MAX,
            offered(start, *buffer, trial as nat),
        decreases OCCUPANCY_TRIALS - trial,
    {
        let watch = Stopwatch::start(source);
        let ghost full = pool;
        let denied = pool.allocate(0);
        if let Ok(h) = denied {
            assert(full.slots@[h.index as int].value is Some);
        }
        top = top - 1;
        let handle = match handles[top] {
            Some(h) => h,
            None => return false,
        };
        handles[top] = None;
        let freed = pool.free(handle);
        let ghost drained = pool;
        assert(drained.claimable(63));
        let recovered = pool.allocate(999);
        let cycles = watch.stop(calibration);
        let refused = match denied {
            Err(PoolError::Exhausted) => true,
            _ => false,
        };
        if !refused || freed.is_err() {
            ok = false;
        }
        let recovered = match recovered {
            Ok(h) => h,
            Err(_) => return false,
        };
        assert(recovered.index == 63) by {
            if recovered.index < 63 {
                assert(drained.slots@[recovered.index as int].value is Some);
            }
        };
        offer(buffer, cycles, Ghost(start), Ghost(trial as nat));
        handles[top] = Some(recovered);
        top = top + 1;
        trial = trial + 1;
    }
    ok
}

/// The exhausted-denial path on a full `Pool<u64, 4>`: every timed
/// allocation is refused with `Exhausted`, and the pool's occupancy and
/// values are the same afterwards. Reports whether no state changed.
pub fn phase_denial_exhausted<S: CycleSource>(
    source: &S,
    calibration: &Calibration,
    buffer: &mut Samples<MAX_SAMPLES>,
) -> (r: bool)
    requires
        old(buffer).dropped() + OCCUPANCY_TRIALS <= usize::MAX,
    ensures
        r,
        offered(*old(buffer), *final(buffer), OCCUPANCY_TRIALS as nat),
{
    let ghost start = *buffer;
    proof {
        lemma_offered_none(start);
    }
    let mut pool: Pool<u64, 4> = Pool::new();
    let mut i: usize = 0;
    while i < 4
        invariant
            i <= 4,
            *buffer == start,
            pool.slots@.len() == 4,
            forall|j: int| 0 <= j < i ==> (#[trigger] pool.slots@[j]).value == Some(j as u64),
            forall|j: int|
                i <= j < 4 ==> (#[trigger] pool.slots@[j]).value is None
                    && pool.slots@[j].generation == 0,
        decreases 4 - i,
    {
        let ghost before = pool;
        assert(before.claimable(i as int));
        match pool.allocate(i as u64) {
            Ok(handle) => {
                assert(handle.index == i) by {
                    if handle.index < i {
                        assert(before.slots@[handle.index as int].value is Some);
                    } else if handle.index > i {
                        assert(!before.claimable(i as int));
                    }
                };
            },
            Err(_) => return false,
        }
        i = i + 1;
    }
    let before = snapshot4(&pool);
    let ghost filled = pool.slots@;
    let mut state_changed = false;
    let mut index: usize = 0;
    while index < OCCUPANCY_TRIALS
        invariant
            index <= OCCUPANCY_TRIALS,
            !state_changed,
            pool.slots@ == filled,
            forall|j: int| 0 <= j < 4 ==> (#[trigger] filled[j]).value == Some(j as u64),
            filled.len() == 4,
            start.dropped() + OCCUPANCY_TRIALS <= usize::MAX,
            offered(start, *buffer, index as nat),
        decreases OCCUPANCY_TRIALS - index,
    {
        let watch = Stopwatch::start(source);
        let ghost full = pool;
        let denied = pool.allocate(0xDEAD);
        let cycles = watch.stop(calibration);
        match denied {
            Ok(h) => {
                assert(full.slots@[h.index as int].value is Some);
                state_changed = true;
            },
            Err(PoolError::Exhausted) => {},
            Err(_) => {
                state_changed = true;
            },
        }
        offer(buffer, cycles, Ghost(start), Ghost(index as nat));
        index = index + 1;
    }
    let after = snapshot4(&pool);
    assert(before.0@ =~= after.0@);
    assert(before.1@ =~= after.1@);
    if !snapshots4_equal(&before, &after) {
        state_changed = true;
    }
    !state_changed
}

/// The invalid-handle denial path: every timed free of an already freed
/// handle is refused with `InvalidHandle`, and the pool is the same
/// afterwards. Reports whether no state changed.
pub fn phase_denial_invalid_handle<S: CycleSource>(
    source: &S,
    calibration: &Calibration,
    buffer: &mut Samples<MAX_SAMPLES>,
) -> (r: bool)
    requires
        old(buffer).dropped() + OCCUPANCY_TRIALS <= usize::MAX,
    ensures
        r,
        offered(*old(buffer), *final(buffer), OCCUPANCY_TRIALS as nat),
{
    let ghost start = *buffer;
    proof {
        lemma_offered_none(start);
    }
    let mut pool: Pool<u64, 4> = Pool::new();
    let ghost fresh_pool = pool;
    assert(fresh_pool.claimable(0));
    let handle = match pool.allocate(1) {
        Ok(handle) => handle,
        Err(_) => return false,
    };
    if pool.free(handle).is_err() {
        return false;
    }
    let before = snapshot4(&pool);
    let ghost drained = pool.slots@;
    assert(!pool.live(handle));
    let mut state_changed = false;
    let mut index: usize = 0;
    while index < OCCUPANCY_TRIALS
        invariant
            index <= OCCUPANCY_TRIALS,
            !state_changed,
            pool.slots@ == drained,
            !Pool::<u64, 4>::live_in(drained, handle),
            start.dropped() + OCCUPANCY_TRIALS <= usize::MAX,
            offered(start, *buffer, index as nat),
        decreases OCCUPANCY_TRIALS - index,
    {
        let watch = Stopwatch::start(source);
        let denied = pool.free(handle);
        let cycles = watch.stop(calibration);
        match denied {
            Err(PoolError::InvalidHandle) => {},
            _ => {
                state_changed = true;
            },
        }
        offer(buffer, cycles, Ghost(start), Ghost(index as nat));
        index = index + 1;
    }
    let after = snapshot4(&pool);
    assert(before.0@ =~= after.0@);
    assert(before.1@ =~= after.1@);
    if !snapshots4_equal(&before, &after) {
        state_changed = true;
    }
    !state_changed
}

} // verus!
