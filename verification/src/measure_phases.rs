//! Measured workloads, each timed through the [`Stopwatch`] harness against
//! any [`CycleSource`], so every architecture runs the same workloads.
//!
//! Every phase runs [`WARMUP`] unmeasured iterations and then [`SAMPLES`]
//! measured ones, offering one sample per measured iteration, and reports
//! whether the workload itself behaved as it should on every iteration.

use vstd::prelude::*;
use crate::actuation::lcg_state;
use crate::measure::{
    Calibration,
    CycleSource,
    Samples,
    Stopwatch,
    lemma_offered_none,
    offer,
    offered,
};
use crate::mem::{Pool, PoolError};
use crate::sched::{OverrunPolicy, Priority, Scheduler, TaskEntry, WcetBudgetTicks};

verus! {

/// Every phase's sample capacity.
pub const SAMPLES: usize = 1000;

/// Unmeasured iterations before sampling starts.
pub const WARMUP: usize = 100;

/// Read pairs used to calibrate the cycle source's own overhead.
pub const CALIBRATION_SAMPLES: usize = 2000;

/// Task stack size for the context-switch and dispatch phases.
pub const STACK_SIZE: usize = 4096;

/// Scheduler capacity for the dispatch phases.
pub const TASKS: usize = 4;

/// Iterations inside one timed region of [`phase_reference_loop`]; part of
/// the reference's definition.
pub const REFERENCE_ITERATIONS: usize = 64;

/// Operations timed inside one sample of [`phase_pool_denial`].
pub const D07_BATCH: usize = 64;

/// Operations per timed region of [`phase_pool_alloc_free_batched`].
pub const ROUND_TRIP_BATCH: usize = 8;

/// The seed of the reference recurrence.
pub const REFERENCE_SEED: u64 = 0x9E37_79B9_7F4A_7C15;

/// The measurement reference: [`REFERENCE_ITERATIONS`] steps of a fixed
/// recurrence per timed region. Reports whether the recurrence's final
/// value is non-zero, so that the computation cannot be discarded.
pub fn phase_reference_loop<S: CycleSource>(
    source: &S,
    calibration: &Calibration,
    samples: &mut Samples<SAMPLES>,
) -> (r: bool)
    requires
        old(samples).dropped() + SAMPLES <= usize::MAX,
    ensures
        r == (lcg_state(REFERENCE_SEED, REFERENCE_ITERATIONS as nat) != 0),
        offered(*old(samples), *final(samples), SAMPLES as nat),
{
    let ghost start = *samples;
    proof {
        lemma_offered_none(start);
    }
    let mut last: u64 = 0;
    let mut index: usize = 0;
    while index < WARMUP + SAMPLES
        invariant
            index <= WARMUP + SAMPLES,
            index > 0 ==> last == lcg_state(REFERENCE_SEED, REFERENCE_ITERATIONS as nat),
            start.dropped() + SAMPLES <= usize::MAX,
            offered(start, *samples, (if index > WARMUP { index - WARMUP } else { 0 }) as nat),
        decreases WARMUP + SAMPLES - index,
    {
        let watch = Stopwatch::start(source);
        let mut accumulator: u64 = REFERENCE_SEED;
        let mut step: usize = 0;
        while step < REFERENCE_ITERATIONS
            invariant
                step <= REFERENCE_ITERATIONS,
                accumulator == lcg_state(REFERENCE_SEED, step as nat),
            decreases REFERENCE_ITERATIONS - step,
        {
            accumulator = accumulator.wrapping_mul(6_364_136_223_846_793_005u64).wrapping_add(
                (step as u64) | 1u64,
            );
            step = step + 1;
        }
        let cycles = watch.stop(calibration);
        if index >= WARMUP {
            offer(samples, cycles, Ghost(start), Ghost((index - WARMUP) as nat));
        }
        last = accumulator;
        index = index + 1;
    }
    last != 0
}

/// Pool alloc/free round trip on a `Pool<u64, 64>`, one per timed region.
/// Every round trip succeeds and gives back the value it stored.
pub fn phase_pool_alloc_free<S: CycleSource>(
    source: &S,
    calibration: &Calibration,
    samples: &mut Samples<SAMPLES>,
) -> (r: bool)
    requires
        old(samples).dropped() + SAMPLES <= usize::MAX,
    ensures
        r,
        offered(*old(samples), *final(samples), SAMPLES as nat),
{
    let ghost start = *samples;
    proof {
        lemma_offered_none(start);
    }
    let mut pool: Pool<u64, 64> = Pool::new();
    let mut ok = true;
    let mut index: usize = 0;
    while index < WARMUP + SAMPLES
        invariant
            index <= WARMUP + SAMPLES,
            ok,
            pool.slots@.len() == 64,
            pool.slots@[0].value is None,
            pool.slots@[0].generation == index,
            start.dropped() + SAMPLES <= usize::MAX,
            offered(start, *samples, (if index > WARMUP { index - WARMUP } else { 0 }) as nat),
        decreases WARMUP + SAMPLES - index,
    {
        let value = index as u64;
        let ghost before = pool;
        assert(before.claimable(0));
        let watch = Stopwatch::start(source);
        let handle = match pool.allocate(value) {
            Ok(handle) => handle,
            Err(_) => {
                ok = false;
                index = index + 1;
                continue;
            },
        };
        assert(handle.index == 0) by {
            if handle.index > 0 {
                assert(!before.claimable(0));
            }
        };
        let freed = pool.free(handle);
        let cycles = watch.stop(calibration);
        match freed {
            Ok(v) => {
                if v != value {
                    ok = false;
                }
            },
            Err(_) => {
                ok = false;
            },
        }
        if index >= WARMUP {
            offer(samples, cycles, Ghost(start), Ghost((index - WARMUP) as nat));
        }
        index = index + 1;
    }
    ok
}

/// The batched twin of [`phase_pool_alloc_free`]: [`ROUND_TRIP_BATCH`]
/// round trips per timed region, the sample being the region's cost divided
/// by the batch. Every round trip succeeds.
pub fn phase_pool_alloc_free_batched<S: CycleSource>(
    source: &S,
    calibration: &Calibration,
    samples: &mut Samples<SAMPLES>,
) -> (r: bool)
    requires
        old(samples).dropped() + SAMPLES <= usize::MAX,
    ensures
        r,
        offered(*old(samples), *final(samples), SAMPLES as nat),
{
    let ghost start = *samples;
    proof {
        lemma_offered_none(start);
    }
    let mut pool: Pool<u64, 64> = Pool::new();
    let mut ok = true;
    let mut index: usize = 0;
    while index < WARMUP + SAMPLES
        invariant
            index <= WARMUP + SAMPLES,
            ok,
            pool.slots@.len() == 64,
            pool.slots@[0].value is None,
            pool.slots@[0].generation == index * ROUND_TRIP_BATCH,
            start.dropped() + SAMPLES <= usize::MAX,
            offered(start, *samples, (if index > WARMUP { index - WARMUP } else { 0 }) as nat),
        decreases WARMUP + SAMPLES - index,
    {
        let value = index as u64;
        let mut round_trips: usize = 0;
        let watch = Stopwatch::start(source);
        let mut k: usize = 0;
        while k < ROUND_TRIP_BATCH
            invariant
                k <= ROUND_TRIP_BATCH,
                index < WARMUP + SAMPLES,
                round_trips == k,
                pool.slots@.len() == 64,
                pool.slots@[0].value is None,
                pool.slots@[0].generation == index * ROUND_TRIP_BATCH + k,
            ensures
                round_trips == ROUND_TRIP_BATCH,
                pool.slots@.len() == 64,
                pool.slots@[0].value is None,
                pool.slots@[0].generation == (index + 1) * ROUND_TRIP_BATCH,
            decreases ROUND_TRIP_BATCH - k,
        {
            let ghost before = pool;
            assert(before.claimable(0));
            let handle = match pool.allocate(value) {
                Ok(handle) => handle,
                Err(_) => break,
            };
            assert(handle.index == 0) by {
                if handle.index > 0 {
                    assert(!before.claimable(0));
                }
            };
            match pool.free(handle) {
                Ok(v) => {
                    if v == value {
                        round_trips = round_trips + 1;
                    }
                },
                Err(_) => {},
            }
            k = k + 1;
        }
        let cycles = watch.stop(calibration);
        if round_trips != ROUND_TRIP_BATCH {
            ok = false;
        }
        if index >= WARMUP {
            offer(
                samples,
                cycles / (ROUND_TRIP_BATCH as u64),
                Ghost(start),
                Ghost((index - WARMUP) as nat),
            );
        }
        index = index + 1;
    }
    ok
}

/// A pool whose slots are all occupied lists every slot, in order.
proof fn lemma_all_occupied(slots: Seq<crate::mem::Slot<u64>>)
    requires
        slots.len() <= 4,
        forall|j: int| 0 <= j < slots.len() ==> (#[trigger] slots[j]).value is Some,
    ensures
        Pool::<u64, 4>::occupied_handles(slots).len() == slots.len(),
        forall|k: int|
            0 <= k < slots.len() ==> (#[trigger] Pool::<u64, 4>::occupied_handles(slots)[k]).index
                == k,
    decreases slots.len(),
{
    if slots.len() > 0 {
        let earlier = slots.drop_last();
        assert forall|j: int| 0 <= j < earlier.len() implies (#[trigger] earlier[j]).value is Some by {
            assert(earlier[j] == slots[j]);
        };
        lemma_all_occupied(earlier);
        let handles = Pool::<u64, 4>::occupied_handles(slots);
        assert(slots[slots.len() - 1].value is Some);
        assert(handles == Pool::<u64, 4>::occupied_handles(earlier).push(
            crate::mem::PoolHandle {
                index: (slots.len() - 1) as usize,
                generation: slots.last().generation,
            },
        ));
        assert forall|k: int| 0 <= k < slots.len() implies (#[trigger] handles[k]).index == k by {
            if k < slots.len() - 1 {
                assert(handles[k] == Pool::<u64, 4>::occupied_handles(earlier)[k]);
            }
        };
    }
}

/// The denial path: with all four slots of a `Pool<u64, 4>` taken,
/// [`D07_BATCH`] allocations per timed region, each refused. Every one is
/// refused, and the pool still holds exactly what it was filled with.
pub fn phase_pool_denial<S: CycleSource>(
    source: &S,
    calibration: &Calibration,
    samples: &mut Samples<SAMPLES>,
) -> (r: bool)
    requires
        old(samples).dropped() + SAMPLES <= usize::MAX,
    ensures
        r,
        offered(*old(samples), *final(samples), SAMPLES as nat),
{
    let ghost start = *samples;
    proof {
        lemma_offered_none(start);
    }
    let mut pool: Pool<u64, 4> = Pool::new();
    let mut i: usize = 0;
    while i < 4
        invariant
            i <= 4,
            pool.slots@.len() == 4,
            forall|j: int|
                0 <= j < i ==> (#[trigger] pool.slots@[j]).value == Some(j as u64),
            forall|j: int|
                i <= j < 4 ==> (#[trigger] pool.slots@[j]).value is None
                    && pool.slots@[j].generation == 0,
        decreases 4 - i,
    {
        let ghost before = pool;
        assert(before.claimable(i as int));
        match pool.allocate(i as u64) {
            Ok(handle) => {
                assert(handle.index == i) by {
                    if handle.index < i {
                        assert(before.slots@[handle.index as int].value is Some);
                    } else if handle.index > i {
                        assert(!before.claimable(i as int));
                    }
                };
            },
            Err(_) => {
                return false;
            },
        }
        i = i + 1;
    }
    let mut ok = true;
    let mut index: usize = 0;
    while index < WARMUP + SAMPLES
        invariant
            index <= WARMUP + SAMPLES,
            ok,
            pool.slots@.len() == 4,
            forall|j: int| 0 <= j < 4 ==> (#[trigger] pool.slots@[j]).value == Some(j as u64),
            start.dropped() + SAMPLES <= usize::MAX,
            offered(start, *samples, (if index > WARMUP { index - WARMUP } else { 0 }) as nat),
        decreases WARMUP + SAMPLES - index,
    {
        let mut denials: usize = 0;
        let watch = Stopwatch::start(source);
        let mut k: usize = 0;
        while k < D07_BATCH
            invariant
                k <= D07_BATCH,
                denials == k,
                pool.slots@.len() == 4,
                forall|j: int| 0 <= j < 4 ==> (#[trigger] pool.slots@[j]).value == Some(j as u64),
            decreases D07_BATCH - k,
        {
            let ghost before = pool;
            match pool.allocate(0xDEAD) {
                Ok(handle) => {
                    assert(before.slots@[handle.index as int].value is Some);
                },
                Err(_) => {
                    denials = denials + 1;
                },
            }
            k = k + 1;
        }
        let cycles = watch.stop(calibration);
        if denials != D07_BATCH {
            ok = false;
        }
        if index >= WARMUP {
            offer(samples, cycles / (D07_BATCH as u64), Ghost(start), Ghost((index - WARMUP) as nat));
        }
        index = index + 1;
    }
    proof {
        lemma_all_occupied(pool.slots@);
    }
    let listed = pool.iter_occupied();
    let mut occupied: usize = 0;
    let mut k: usize = 0;
    while k < listed.len()
        invariant
            k <= listed@.len(),
            listed@.len() == 4,
            occupied == k,
            ok,
            pool.slots@.len() == 4,
            forall|j: int| 0 <= j < 4 ==> (#[trigger] pool.slots@[j]).value == Some(j as u64),
            forall|m: int|
                0 <= m < listed@.len() ==> {
                    &&& (#[trigger] listed@[m]).0.index == m
                    &&& *listed@[m].1 == m as u64
                },
        decreases listed@.len() - k,
    {
        let (handle, value) = listed[k];
        occupied = occupied + 1;
        if *value != handle.index() as u64 {
            ok = false;
        }
        k = k + 1;
    }
    ok && occupied == 4
}

/// Ready-queue selection alone: four Ready tasks at priorities 3, 9, 17 and
/// 25, entered at `entry`, and one selection per timed region. Every
/// selection picks the priority-25 task, in slot 3.
pub fn phase_dispatch_select<S: CycleSource>(
    source: &S,
    calibration: &Calibration,
    samples: &mut Samples<SAMPLES>,
    entry: TaskEntry,
) -> (r: bool)
    requires
        old(samples).dropped() + SAMPLES <= usize::MAX,
    ensures
        r,
        offered(*old(samples), *final(samples), SAMPLES as nat),
{
    let ghost start = *samples;
    proof {
        lemma_offered_none(start);
    }
    let mut scheduler: Scheduler<TASKS> = Scheduler::new();
    let priorities: [u8; 4] = [3, 9, 17, 25];
    let mut created: usize = 0;
    let mut i: usize = 0;
    while i < 4
        invariant
            i <= 4,
            created == i,
            priorities@ == seq![3u8, 9u8, 17u8, 25u8],
            scheduler.slots().len() == 4,
            forall|j: int|
                0 <= j < i ==> {
                    &&& (#[trigger] scheduler.slots()[j]).value is Some
                    &&& scheduler.slots()[j].value->Some_0.state == crate::sched::TaskState::Ready
                    &&& scheduler.slots()[j].value->Some_0.inherited_priority is None
                    &&& scheduler.slots()[j].value->Some_0.base_priority.value() == priorities@[j]
                },
            forall|j: int|
                i <= j < 4 ==> (#[trigger] scheduler.slots()[j]).value is None
                    && scheduler.slots()[j].generation == 0,
        decreases 4 - i,
    {
        let priority = match Priority::try_new(priorities[i]) {
            Ok(p) => p,
            Err(_) => return false,
        };
        let ghost before = scheduler;
        assert(before.tasks.claimable(i as int));
        match scheduler.create_task(
            priority,
            WcetBudgetTicks(1000),
            OverrunPolicy::TripToSafeState,
            entry,
        ) {
            Ok(task) => {
                assert(task.0.index == i) by {
                    if task.0.index < i {
                        assert(before.slots()[task.0.index as int].value is Some);
                    } else if task.0.index > i {
                        assert(!before.tasks.claimable(i as int));
                    }
                };
                created = created + 1;
            },
            Err(_) => {
                return false;
            },
        }
        i = i + 1;
    }
    if created != TASKS {
        return false;
    }
    let mut ok = true;
    let mut index: usize = 0;
    while index < WARMUP + SAMPLES
        invariant
            index <= WARMUP + SAMPLES,
            ok,
            scheduler.slots().len() == 4,
            forall|j: int|
                0 <= j < 4 ==> {
                    &&& (#[trigger] scheduler.slots()[j]).value is Some
                    &&& scheduler.slots()[j].value->Some_0.state == crate::sched::TaskState::Ready
                    &&& scheduler.slots()[j].value->Some_0.inherited_priority is None
                    &&& scheduler.slots()[j].value->Some_0.base_priority.value() == seq![
                        3u8,
                        9u8,
                        17u8,
                        25u8,
                    ][j]
                },
            start.dropped() + SAMPLES <= usize::MAX,
            offered(start, *samples, (if index > WARMUP { index - WARMUP } else { 0 }) as nat),
        decreases WARMUP + SAMPLES - index,
    {
        proof {
            assert(crate::sched::ready_slot(scheduler.slots(), 3));
        }
        let watch = Stopwatch::start(source);
        let selected = scheduler.highest_priority_ready();
        let cycles = watch.stop(calibration);
        match selected {
            Some(task) => {
                assert(task.0.index == 3) by {
                    let i = task.0.index as int;
                    assert(crate::sched::slot_priority(scheduler.slots(), 3) == 25);
                    assert(crate::sched::slot_priority(scheduler.slots(), 3)
                        <= crate::sched::slot_priority(scheduler.slots(), i));
                };
                if task.index() != 3 {
                    ok = false;
                }
            },
            None => {
                ok = false;
            },
        }
        if index >= WARMUP {
            offer(samples, cycles, Ghost(start), Ghost((index - WARMUP) as nat));
        }
        index = index + 1;
    }
    ok
}

} // verus!
