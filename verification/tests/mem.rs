use lib::mem::{Pool, PoolError, PoolHandle};
use std::cell::Cell;
use std::time::Instant;

#[test]
fn alloc_free_round_trip_returns_stored_value() {
    let mut pool: Pool<u32, 4> = Pool::new();
    let handle = pool.allocate(42).expect("pool has free slots");
    assert_eq!(pool.free(handle), Ok(42));
}

#[test]
fn freed_slot_is_reusable_by_a_later_alloc() {
    let mut pool: Pool<u32, 1> = Pool::new();
    let handle = pool.allocate(1).unwrap();
    pool.free(handle).unwrap();
    let handle2 = pool.allocate(2).expect("freed slot should be reusable");
    assert_ne!(handle, handle2, "slot reuse must advance its generation");
    assert_eq!(pool.free(handle2), Ok(2));
}

#[test]
fn stale_handle_cannot_alias_a_reused_slot() {
    let mut pool: Pool<u32, 1> = Pool::new();
    let stale = pool.allocate(1).unwrap();
    assert_eq!(pool.free(stale), Ok(1));
    let current = pool.allocate(2).unwrap();

    assert_eq!(stale.index(), current.index(), "the same physical slot was reused");
    assert_ne!(stale, current, "the allocation incarnation is part of identity");
    assert_eq!(pool.get_mut(stale), None);
    assert_eq!(pool.free(stale), Err(PoolError::InvalidHandle));
    assert_eq!(pool.free(current), Ok(2));
}

#[test]
fn generation_wrap_retires_a_slot_instead_of_revalidating_an_old_handle() {
    let mut pool: Pool<u32, 1> = Pool::new();
    pool.slots[0].generation = u64::MAX;
    assert_eq!(pool.allocate(1), Err(PoolError::Exhausted));
    assert!(!pool.slots[0].is_occupied());
    assert_eq!(pool.slots[0].generation, u64::MAX);
}

#[test]
fn double_free_is_rejected_not_panicking() {
    let mut pool: Pool<u32, 4> = Pool::new();
    let handle = pool.allocate(7).unwrap();
    assert_eq!(pool.free(handle), Ok(7));
    assert_eq!(pool.free(handle), Err(PoolError::InvalidHandle));
}

#[test]
fn out_of_range_handle_is_rejected_not_panicking() {
    let mut pool: Pool<u32, 4> = Pool::new();
    let bogus = PoolHandle { index: 99, generation: 1 };
    assert_eq!(pool.free(bogus), Err(PoolError::InvalidHandle));
}

#[test]
fn get_mut_returns_a_reference_to_the_stored_value_without_freeing_it() {
    let mut pool: Pool<u32, 4> = Pool::new();
    let handle = pool.allocate(42).unwrap();
    *pool.get_mut(handle).expect("handle is occupied") += 1;
    assert_eq!(pool.free(handle), Ok(43));
}

#[test]
fn get_mut_rejects_freed_or_out_of_range_handles() {
    let mut pool: Pool<u32, 4> = Pool::new();
    let handle = pool.allocate(1).unwrap();
    pool.free(handle).unwrap();
    assert_eq!(pool.get_mut(handle), None);
    assert_eq!(pool.get_mut(PoolHandle { index: 99, generation: 1 }), None);
}

#[test]
fn exhausted_pool_fails_closed_without_side_effects() {
    let mut pool: Pool<u32, 2> = Pool::new();
    let a = pool.allocate(1).unwrap();
    let _b = pool.allocate(2).unwrap();

    assert_eq!(pool.allocate(3), Err(PoolError::Exhausted));
    assert_eq!(pool.allocate(4), Err(PoolError::Exhausted));

    assert_eq!(pool.free(a), Ok(1));
    let c = pool.allocate(5).expect("a freed slot should be allocatable again");
    assert_eq!(pool.free(c), Ok(5));
}

/// Nanoseconds since `origin`: the host-side stand-in for a cycle counter.
fn ticks(origin: Instant) -> u64 {
    origin.elapsed().as_nanos() as u64
}

/// The smallest back-to-back read delta, the counter's own read overhead.
fn calibrate_overhead(origin: Instant) -> u64 {
    let mut min = u64::MAX;
    for _ in 0..10_000 {
        let a = ticks(origin);
        let b = ticks(origin);
        min = min.min(b.saturating_sub(a));
    }
    min
}

/// Nearest-rank percentile over an already-sorted sample slice.
fn nearest_rank(sorted: &[u64], p: f64) -> u64 {
    assert!(!sorted.is_empty());
    let rank = ((sorted.len() - 1) as f64 * p).round() as usize;
    sorted[rank]
}

#[test]
fn perf_pool_u64x64_alloc_free_round_trip_host_diagnostic() {
    const WARMUP: usize = 1_000;
    const SAMPLES: usize = 100_000;
    let origin = Instant::now();
    let overhead = calibrate_overhead(origin);

    let mut pool: Pool<u64, 64> = Pool::new();
    let mut spans: Vec<u64> = Vec::with_capacity(SAMPLES);
    for i in 0..(WARMUP + SAMPLES) {
        let value = i as u64;
        let t0 = ticks(origin);
        let handle = pool
            .allocate(value)
            .expect("Pool<u64,64> alloc immediately followed by free never exhausts");
        let freed = pool.free(handle).expect("handle just returned by alloc is always valid");
        let t1 = ticks(origin);
        assert_eq!(freed, value);
        if i >= WARMUP {
            spans.push(t1.saturating_sub(t0).saturating_sub(overhead));
        }
    }
    spans.sort_unstable();
    println!(
        "pool_u64x64_alloc_free samples={} overhead_ns={} p50={} p99={} p99.9={} max={}",
        SAMPLES,
        overhead,
        nearest_rank(&spans, 0.50),
        nearest_rank(&spans, 0.99),
        nearest_rank(&spans, 0.999),
        spans.last().unwrap()
    );
}

#[test]
fn perf_pool_u64x64_million_op_tail_host_diagnostic() {
    const WARMUP: usize = 1_000;
    const SAMPLES: usize = 1_000_000;
    let origin = Instant::now();
    let overhead = calibrate_overhead(origin);
    let mut pool: Pool<u64, 64> = Pool::new();
    let mut spans: Vec<u64> = Vec::with_capacity(SAMPLES);
    for i in 0..(WARMUP + SAMPLES) {
        let value = i as u64;
        let t0 = ticks(origin);
        let handle = pool.allocate(value).unwrap();
        let freed = pool.free(handle).unwrap();
        let t1 = ticks(origin);
        assert_eq!(freed, value);
        if i >= WARMUP {
            spans.push(t1.saturating_sub(t0).saturating_sub(overhead));
        }
    }
    spans.sort_unstable();
    println!(
        "pool_u64x64_million_op_tail samples={} p50={} p99={} p99.9={} max={}",
        SAMPLES,
        nearest_rank(&spans, 0.50),
        nearest_rank(&spans, 0.99),
        nearest_rank(&spans, 0.999),
        spans.last().unwrap()
    );
}

#[test]
fn perf_pool_u64x64_occupancy_pattern_host_diagnostic() {
    const TRIALS: usize = 10_000;
    let origin = Instant::now();
    let overhead = calibrate_overhead(origin);

    let mut best: Vec<u64> = Vec::with_capacity(TRIALS);
    {
        let mut pool: Pool<u64, 64> = Pool::new();
        for i in 0..TRIALS {
            let t0 = ticks(origin);
            let h = pool.allocate(i as u64).unwrap();
            let t1 = ticks(origin);
            best.push(t1.saturating_sub(t0).saturating_sub(overhead));
            pool.free(h).unwrap();
        }
    }

    let mut middle: Vec<u64> = Vec::with_capacity(TRIALS);
    {
        let mut pool: Pool<u64, 64> = Pool::new();
        for i in 0..31 {
            pool.allocate(i as u64).unwrap();
        }
        for i in 0..TRIALS {
            let t0 = ticks(origin);
            let h = pool.allocate(i as u64).unwrap();
            let t1 = ticks(origin);
            middle.push(t1.saturating_sub(t0).saturating_sub(overhead));
            pool.free(h).unwrap();
        }
    }

    let mut last: Vec<u64> = Vec::with_capacity(TRIALS);
    {
        let mut pool: Pool<u64, 64> = Pool::new();
        for i in 0..63 {
            pool.allocate(i as u64).unwrap();
        }
        for i in 0..TRIALS {
            let t0 = ticks(origin);
            let h = pool.allocate(i as u64).unwrap();
            let t1 = ticks(origin);
            last.push(t1.saturating_sub(t0).saturating_sub(overhead));
            pool.free(h).unwrap();
        }
    }

    let mut frees: Vec<u64> = Vec::with_capacity(TRIALS);
    {
        let mut pool: Pool<u64, 64> = Pool::new();
        for i in 0..TRIALS {
            let h = pool.allocate(i as u64).unwrap();
            let t0 = ticks(origin);
            pool.free(h).unwrap();
            let t1 = ticks(origin);
            frees.push(t1.saturating_sub(t0).saturating_sub(overhead));
        }
    }

    let mut recovery: Vec<u64> = Vec::with_capacity(TRIALS);
    {
        let mut pool: Pool<u64, 64> = Pool::new();
        let mut handles = Vec::with_capacity(64);
        for i in 0..64 {
            handles.push(pool.allocate(i as u64).unwrap());
        }
        for _ in 0..TRIALS {
            let t0 = ticks(origin);
            let denied = pool.allocate(0);
            let h = handles.pop().unwrap();
            pool.free(h).unwrap();
            let recovered = pool.allocate(999);
            let t1 = ticks(origin);
            assert_eq!(denied, Err(PoolError::Exhausted));
            let recovered = recovered.unwrap();
            recovery.push(t1.saturating_sub(t0).saturating_sub(overhead));
            handles.push(recovered);
        }
    }

    for (label, mut series) in [
        ("best_slot0", best),
        ("middle_slot32", middle),
        ("last_slot63", last),
        ("free_o1", frees),
        ("deny_then_recover", recovery),
    ] {
        series.sort_unstable();
        println!(
            "pool_u64x64_occupancy[{}] n={} p50={} p99={} max={}",
            label,
            series.len(),
            nearest_rank(&series, 0.50),
            nearest_rank(&series, 0.99),
            series.last().unwrap()
        );
    }
}

fn snapshot<const N: usize>(pool: &Pool<u64, N>) -> ([bool; N], [u64; N]) {
    let mut occupied = [false; N];
    let mut values = [0u64; N];
    for (i, slot) in pool.slots.iter().enumerate() {
        occupied[i] = slot.is_occupied();
        if let Some(v) = slot.value {
            values[i] = v;
        }
    }
    (occupied, values)
}

#[test]
fn perf_pool_u64x64_denial_paths_host_diagnostic() {
    const TRIALS: usize = 10_000;
    let origin = Instant::now();
    let overhead = calibrate_overhead(origin);

    let mut exhausted: Vec<u64> = Vec::with_capacity(TRIALS);
    {
        let mut pool: Pool<u64, 4> = Pool::new();
        for i in 0..4 {
            pool.allocate(i as u64).unwrap();
        }
        let mut state_changed = false;
        for _ in 0..TRIALS {
            let before = snapshot(&pool);
            let t0 = ticks(origin);
            let r = pool.allocate(0xDEAD);
            let t1 = ticks(origin);
            let after = snapshot(&pool);
            assert_eq!(r, Err(PoolError::Exhausted));
            if before != after {
                state_changed = true;
            }
            exhausted.push(t1.saturating_sub(t0).saturating_sub(overhead));
        }
        assert!(!state_changed, "Exhausted denial must produce zero state changes");
    }

    let mut invalid: Vec<u64> = Vec::with_capacity(TRIALS);
    {
        let mut pool: Pool<u64, 4> = Pool::new();
        let h = pool.allocate(1).unwrap();
        pool.free(h).unwrap();
        let mut state_changed = false;
        for _ in 0..TRIALS {
            let before = snapshot(&pool);
            let t0 = ticks(origin);
            let r = pool.free(h);
            let t1 = ticks(origin);
            let after = snapshot(&pool);
            assert_eq!(r, Err(PoolError::InvalidHandle));
            if before != after {
                state_changed = true;
            }
            invalid.push(t1.saturating_sub(t0).saturating_sub(overhead));
        }
        assert!(!state_changed, "InvalidHandle denial must produce zero state changes");
    }

    for (label, mut series) in [("exhausted", exhausted), ("invalid_handle", invalid)] {
        series.sort_unstable();
        println!(
            "pool_denial[{}] n={} state_changes=0 p50={} p99={} max={}",
            label,
            series.len(),
            nearest_rank(&series, 0.50),
            nearest_rank(&series, 0.99),
            series.last().unwrap()
        );
    }
}

struct DropCounter<'a>(&'a Cell<u32>);

impl Drop for DropCounter<'_> {
    fn drop(&mut self) {
        self.0.set(self.0.get() + 1);
    }
}

#[test]
fn perf_pool_exhaustion_drain_cycles_drop_accounting() {
    const CYCLES: usize = 1_000;
    const N: usize = 16;
    let alloc_count = Cell::new(0u32);
    let drop_count = Cell::new(0u32);

    for _ in 0..CYCLES {
        let mut pool: Pool<DropCounter<'_>, N> = Pool::new();
        let mut handles = Vec::with_capacity(N);
        for _ in 0..N {
            handles.push(pool.allocate(DropCounter(&drop_count)).unwrap());
            alloc_count.set(alloc_count.get() + 1);
        }
        assert_eq!(pool.allocate(DropCounter(&drop_count)), Err(PoolError::Exhausted));
        alloc_count.set(alloc_count.get() + 1);
        for h in handles {
            assert!(pool.free(h).is_ok());
        }
        assert_eq!(drop_count.get(), alloc_count.get(), "no leak/double-drop mid-cycle");
    }

    assert_eq!(alloc_count.get(), drop_count.get());
}

#[test]
fn perf_pool_u64x64_size_of_host_diagnostic() {
    let bytes = core::mem::size_of::<Pool<u64, 64>>();
    println!("size_of::<Pool<u64,64>>() = {} bytes", bytes);
    assert!(bytes <= 8 * 1024, "static-pool contribution alone must fit the 8 KiB budget");
}

#[test]
fn dropping_a_pool_with_occupied_slots_drops_their_values() {
    let count = Cell::new(0);
    {
        let mut pool: Pool<DropCounter<'_>, 2> = Pool::new();
        let _a = pool.allocate(DropCounter(&count)).unwrap();
        let _b = pool.allocate(DropCounter(&count)).unwrap();
    }
    assert_eq!(count.get(), 2);
}

// Occupied slots are listed in slot order with the values they hold.
#[test]
fn iter_occupied_lists_live_values_in_slot_order() {
    let mut pool: Pool<u32, 4> = Pool::new();
    let a = pool.allocate(10).unwrap();
    let b = pool.allocate(20).unwrap();
    let c = pool.allocate(30).unwrap();
    pool.free(b).unwrap();
    let listed: Vec<(PoolHandle, u32)> = pool.iter_occupied().into_iter().map(|(h, v)| (h, *v)).collect();
    assert_eq!(listed, vec![(a, 10), (c, 30)]);
    assert_eq!(pool.get(a), Some(&10));
    assert_eq!(pool.get(b), None);
}

// Claiming or freeing one slot never disturbs a handle to another.
#[test]
fn claiming_and_freeing_leave_other_handles_alone() {
    let mut pool: Pool<u32, 3> = Pool::new();
    let a = pool.allocate(1).unwrap();
    let b = pool.allocate(2).unwrap();
    assert_eq!(pool.get(a), Some(&1));
    pool.free(b).unwrap();
    let c = pool.allocate(3).unwrap();
    assert_eq!(c.index(), b.index());
    assert_eq!(pool.get(a), Some(&1));
    assert_eq!(pool.get(b), None);
    assert_eq!(pool.get(c), Some(&3));
}
