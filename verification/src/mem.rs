//! Fixed-capacity slot pool with generational handles.
//!
//! A `Pool<T, N>` holds up to `N` live values. Every slot carries a
//! generation counter that advances each time the slot is claimed, and a
//! [`PoolHandle`] names both a slot index and the generation it was issued
//! for, so a handle kept after [`Pool::free`] can never reach a later value
//! that happens to reuse the same slot. Allocation fails closed with
//! [`PoolError::Exhausted`] and leaves the pool untouched; every lookup with
//! a handle that does not name a live value fails closed as well.

use vstd::prelude::*;

verus! {

/// Identifies a value previously returned by [`Pool::allocate`]: the slot index
/// and the allocation incarnation of that slot.
///
/// A handle is only a name. The pool checks both fields on every use, so a
/// fabricated or stale handle is rejected rather than trusted.
#[derive(Debug, Clone, Copy, PartialEq, Eq, Structural)]
pub struct PoolHandle {
    /// The slot index.
    pub index: usize,
    /// The slot generation this handle was issued for.
    pub generation: u64,
}

impl PoolHandle {
    /// This handle's slot index, so callers can key a parallel,
    /// index-addressed array by it.
    pub fn index(self) -> (r: usize)
        ensures
            r == self.index,
    {
        self.index
    }
}

/// Errors [`Pool::allocate`] and [`Pool::free`] fail closed with.
#[derive(Debug, Clone, Copy, PartialEq, Eq, Structural)]
pub enum PoolError {
    /// Every slot is occupied or permanently retired after generation
    /// exhaustion; the pool is unchanged.
    Exhausted,
    /// The handle does not name a currently occupied slot of this
    /// incarnation (already freed, stale, or never issued).
    InvalidHandle,
}

/// One storage slot: the value it holds, if any, and its generation.
#[derive(Debug)]
pub struct Slot<T> {
    /// The stored value, `None` when the slot is free.
    pub value: Option<T>,
    /// How many times this slot has been claimed.
    pub generation: u64,
}

impl<T> Slot<T> {
    /// Whether this slot currently holds a value.
    pub open spec fn occupied_spec(&self) -> bool {
        self.value is Some
    }

    /// Whether this slot currently holds a value.
    #[verifier::when_used_as_spec(occupied_spec)]
    pub fn is_occupied(&self) -> (r: bool)
        ensures
            r == self.occupied_spec(),
    {
        self.value.is_some()
    }
}

/// Fixed-capacity storage for up to `N` live values of `T`.
#[derive(Debug)]
pub struct Pool<T, const N: usize> {
    /// The slots, in index order. [`Pool::new`] creates exactly `N`.
    pub slots: Vec<Slot<T>>,
}

impl<T, const N: usize> Pool<T, N> {
    /// Whether `handle` names the value currently held by its slot in
    /// `slots`.
    pub open spec fn live_in(slots: Seq<Slot<T>>, handle: PoolHandle) -> bool {
        &&& handle.index < slots.len()
        &&& slots[handle.index as int].value is Some
        &&& slots[handle.index as int].generation == handle.generation
    }

    /// The value `handle` names in `slots` (meaningful when it is live).
    pub open spec fn value_in(slots: Seq<Slot<T>>, handle: PoolHandle) -> T {
        slots[handle.index as int].value->Some_0
    }

    /// Whether `handle` names the value currently held by its slot.
    pub open spec fn live(&self, handle: PoolHandle) -> bool {
        Self::live_in(self.slots@, handle)
    }

    /// The value `handle` names (meaningful when `self.live(handle)`).
    pub open spec fn value_of(&self, handle: PoolHandle) -> T {
        Self::value_in(self.slots@, handle)
    }

    /// Whether slot `i` can be claimed: free, and its generation can still
    /// advance without wrapping.
    pub open spec fn claimable(&self, i: int) -> bool {
        &&& self.slots@[i].value is None
        &&& self.slots@[i].generation < u64::MAX
    }

    /// `slots` after slot `i` is claimed for `value`: occupied, one
    /// generation later.
    pub open spec fn claimed(slots: Seq<Slot<T>>, i: int, value: T) -> Seq<Slot<T>> {
        slots.update(i, Slot { value: Some(value), generation: (slots[i].generation + 1) as u64 })
    }

    /// `slots` after slot `i` is released: free, generation unchanged.
    pub open spec fn released(slots: Seq<Slot<T>>, i: int) -> Seq<Slot<T>> {
        slots.update(i, Slot { value: None, generation: slots[i].generation })
    }

    /// Whether some slot can be claimed.
    pub open spec fn has_claimable(&self) -> bool {
        exists|i: int| 0 <= i < self.slots@.len() && #[trigger] self.claimable(i)
    }

    /// The handles of every occupied slot in `slots`, in index order.
    pub open spec fn occupied_handles(slots: Seq<Slot<T>>) -> Seq<PoolHandle>
        decreases slots.len(),
    {
        if slots.len() == 0 {
            Seq::empty()
        } else {
            let earlier = Self::occupied_handles(slots.drop_last());
            if slots.last().value is Some {
                earlier.push(
                    PoolHandle {
                        index: (slots.len() - 1) as usize,
                        generation: slots.last().generation,
                    },
                )
            } else {
                earlier
            }
        }
    }

    /// An empty pool: `N` free slots, each at generation 0.
    pub fn new() -> (pool: Self)
        ensures
            pool.slots@.len() == N,
            forall|i: int|
                0 <= i < N ==> (#[trigger] pool.slots@[i]).value is None
                    && pool.slots@[i].generation == 0,
    {
        let mut slots: Vec<Slot<T>> = Vec::new();
        let mut i: usize = 0;
        while i < N
            invariant
                i <= N,
                slots@.len() == i,
                forall|j: int|
                    0 <= j < i ==> (#[trigger] slots@[j]).value is None && slots@[j].generation
                        == 0,
            decreases N - i,
        {
            slots.push(Slot { value: None, generation: 0 });
            i = i + 1;
        }
        Pool { slots }
    }

    /// Claims the first claimable slot and moves `value` into it.
    ///
    /// Fails closed with [`PoolError::Exhausted`], leaving the pool
    /// unchanged, when every slot is occupied or retired. A free slot whose
    /// generation is already `u64::MAX` is retired for good rather than
    /// wrapped, so no old handle can ever become valid again.
    pub fn allocate(&mut self, value: T) -> (r: Result<PoolHandle, PoolError>)
        ensures
            match r {
                Ok(h) => {
                    &&& h.index < old(self).slots@.len()
                    &&& old(self).claimable(h.index as int)
                    &&& forall|j: int| 0 <= j < h.index ==> !#[trigger] old(self).claimable(j)
                    &&& h.generation == old(self).slots@[h.index as int].generation + 1
                    &&& final(self).slots@ == Self::claimed(old(self).slots@, h.index as int, value)
                },
                Err(e) => {
                    &&& e == PoolError::Exhausted
                    &&& !old(self).has_claimable()
                    &&& final(self).slots@ == old(self).slots@
                },
            },
    {
        let mut index: usize = 0;
        while index < self.slots.len()
            invariant
                index <= self.slots@.len(),
                self.slots@ == old(self).slots@,
                forall|j: int| 0 <= j < index ==> !#[trigger] old(self).claimable(j),
            decreases self.slots@.len() - index,
        {
            if self.slots[index].value.is_none() && self.slots[index].generation < u64::MAX {
                let generation: u64 = self.slots[index].generation + 1;
                self.slots.set(index, Slot { value: Some(value), generation });
                return Ok(PoolHandle { index, generation });
            }
            index = index + 1;
        }
        Err(PoolError::Exhausted)
    }

    /// A shared reference to the value `handle` names, or `None` when the
    /// handle is out of range, its slot is free, or it is stale.
    pub fn get(&self, handle: PoolHandle) -> (r: Option<&T>)
        ensures
            r is Some <==> self.live(handle),
            r matches Some(v) ==> *v == self.value_of(handle),
    {
        if handle.index >= self.slots.len() {
            return None;
        }
        let slot = &self.slots[handle.index];
        if slot.generation != handle.generation {
            return None;
        }
        match &slot.value {
            Some(v) => Some(v),
            None => None,
        }
    }

    /// A mutable reference to the value `handle` names, without freeing its
    /// slot, or `None` (pool unchanged) when `handle` does not name a live
    /// value. Writing through the reference changes exactly that value.
    pub fn get_mut(&mut self, handle: PoolHandle) -> (r: Option<&mut T>)
        ensures
            r is Some <==> old(self).live(handle),
            r matches Some(v) ==> {
                &&& *v == old(self).value_of(handle)
                &&& final(self).slots@ == old(self).slots@.update(
                    handle.index as int,
                    Slot { value: Some(*final(v)), generation: handle.generation },
                )
            },
            r is None ==> final(self).slots@ == old(self).slots@,
    {
        if handle.index >= self.slots.len() {
            return None;
        }
        if self.slots[handle.index].generation != handle.generation
            || self.slots[handle.index].value.is_none() {
            return None;
        }
        let slot = &mut self.slots[handle.index];
        match &mut slot.value {
            Some(v) => Some(v),
            None => None,
        }
    }

    /// Every occupied slot's handle alongside a shared reference to its
    /// value, in slot-index order.
    pub fn iter_occupied(&self) -> (r: Vec<(PoolHandle, &T)>)
        ensures
            r@.len() == Self::occupied_handles(self.slots@).len(),
            forall|k: int|
                0 <= k < r@.len() ==> {
                    &&& (#[trigger] r@[k]).0 == Self::occupied_handles(self.slots@)[k]
                    &&& self.live(r@[k].0)
                    &&& *r@[k].1 == self.value_of(r@[k].0)
                },
    {
        let mut out: Vec<(PoolHandle, &T)> = Vec::new();
        let mut i: usize = 0;
        while i < self.slots.len()
            invariant
                i <= self.slots@.len(),
                out@.len() == Self::occupied_handles(self.slots@.subrange(0, i as int)).len(),
                forall|k: int|
                    0 <= k < out@.len() ==> {
                        &&& (#[trigger] out@[k]).0 == Self::occupied_handles(
                            self.slots@.subrange(0, i as int),
                        )[k]
                        &&& self.live(out@[k].0)
                        &&& *out@[k].1 == self.value_of(out@[k].0)
                    },
            decreases self.slots@.len() - i,
        {
            proof {
                assert(self.slots@.subrange(0, i + 1).drop_last() == self.slots@.subrange(
                    0,
                    i as int,
                ));
            }
            let slot = &self.slots[i];
            match &slot.value {
                Some(v) => {
                    out.push((PoolHandle { index: i, generation: slot.generation }, v));
                },
                None => {},
            }
            i = i + 1;
        }
        proof {
            assert(self.slots@.subrange(0, self.slots@.len() as int) == self.slots@);
        }
        out
    }

    /// Returns ownership of the value `handle` names and frees its slot.
    ///
    /// Fails closed with [`PoolError::InvalidHandle`], leaving the pool
    /// unchanged, when `handle` does not name a live value.
    pub fn free(&mut self, handle: PoolHandle) -> (r: Result<T, PoolError>)
        ensures
            old(self).live(handle) ==> {
                &&& r == Ok::<T, PoolError>(old(self).value_of(handle))
                &&& final(self).slots@ == Self::released(old(self).slots@, handle.index as int)
            },
            !old(self).live(handle) ==> {
                &&& r == Err::<T, PoolError>(PoolError::InvalidHandle)
                &&& final(self).slots@ == old(self).slots@
            },
    {
        if handle.index >= self.slots.len() {
            return Err(PoolError::InvalidHandle);
        }
        if self.slots[handle.index].generation != handle.generation
            || self.slots[handle.index].value.is_none() {
            return Err(PoolError::InvalidHandle);
        }
        let mut slot = Slot { value: None, generation: handle.generation };
        std::mem::swap(&mut self.slots[handle.index], &mut slot);
        proof {
            assert(self.slots@ =~= old(self).slots@.update(
                handle.index as int,
                Slot { value: None, generation: handle.generation },
            ));
        }
        match slot.value {
            Some(v) => Ok(v),
            None => Err(PoolError::InvalidHandle),
        }
    }
}

impl<T, const N: usize> Default for Pool<T, N> {
    fn default() -> (pool: Self)
        ensures
            pool.slots@.len() == N,
            forall|i: int|
                0 <= i < N ==> (#[trigger] pool.slots@[i]).value is None
                    && pool.slots@[i].generation == 0,
    {
        Self::new()
    }
}

/// Reading back through a freshly issued handle gives exactly the value
/// that was moved in.
pub proof fn lemma_read_after_claim<T, const N: usize>(slots: Seq<Slot<T>>, i: int, value: T)
    requires
        0 <= i < slots.len(),
        i <= usize::MAX,
        slots[i].value is None,
        slots[i].generation < u64::MAX,
    ensures
        ({
            let after = Pool::<T, N>::claimed(slots, i, value);
            let handle = PoolHandle { index: i as usize, generation: (slots[i].generation + 1) as u64 };
            &&& Pool::<T, N>::live_in(after, handle)
            &&& Pool::<T, N>::value_in(after, handle) == value
        }),
{
}

/// Claiming one slot leaves every handle of every other slot exactly as
/// live as it was, naming the same value.
pub proof fn lemma_claim_preserves_other_handles<T, const N: usize>(
    slots: Seq<Slot<T>>,
    i: int,
    value: T,
    handle: PoolHandle,
)
    requires
        0 <= i < slots.len(),
        handle.index != i,
    ensures
        Pool::<T, N>::live_in(Pool::<T, N>::claimed(slots, i, value), handle) == Pool::<
            T,
            N,
        >::live_in(slots, handle),
        Pool::<T, N>::live_in(slots, handle) ==> Pool::<T, N>::value_in(
            Pool::<T, N>::claimed(slots, i, value),
            handle,
        ) == Pool::<T, N>::value_in(slots, handle),
{
}

/// A handle whose value was freed is dead for good: neither the release
/// nor any later claim of the same slot makes it live again. (A slot whose
/// generation cannot advance is never claimed again at all.)
pub proof fn lemma_stale_handle_stays_dead<T, const N: usize>(
    slots: Seq<Slot<T>>,
    handle: PoolHandle,
    later: T,
)
    requires
        Pool::<T, N>::live_in(slots, handle),
    ensures
        !Pool::<T, N>::live_in(Pool::<T, N>::released(slots, handle.index as int), handle),
        slots[handle.index as int].generation < u64::MAX ==> !Pool::<T, N>::live_in(
            Pool::<T, N>::claimed(
                Pool::<T, N>::released(slots, handle.index as int),
                handle.index as int,
                later,
            ),
            handle,
        ),
{
}

/// The handles `occupied_handles` lists are exactly the live handles of the
/// occupied slots, one per occupied slot, in strictly increasing slot order.
pub proof fn lemma_occupied_handles<T, const N: usize>(slots: Seq<Slot<T>>)
    requires
        slots.len() <= usize::MAX + 1,
    ensures
        forall|k: int|
            0 <= k < Pool::<T, N>::occupied_handles(slots).len() ==> Pool::<T, N>::live_in(
                slots,
                #[trigger] Pool::<T, N>::occupied_handles(slots)[k],
            ),
        forall|k1: int, k2: int|
            0 <= k1 < k2 < Pool::<T, N>::occupied_handles(slots).len() ==> (
            #[trigger] Pool::<T, N>::occupied_handles(slots)[k1]).index < (
            #[trigger] Pool::<T, N>::occupied_handles(slots)[k2]).index,
        forall|i: int|
            0 <= i < slots.len() && (#[trigger] slots[i]).value is Some ==> exists|k: int|
                0 <= k < Pool::<T, N>::occupied_handles(slots).len() && (
                #[trigger] Pool::<T, N>::occupied_handles(slots)[k]).index == i,
    decreases slots.len(),
{
    if slots.len() > 0 {
        let earlier = slots.drop_last();
        let last: int = slots.len() - 1;
        lemma_occupied_handles::<T, N>(earlier);
        let before = Pool::<T, N>::occupied_handles(earlier);
        let all = Pool::<T, N>::occupied_handles(slots);
        assert forall|k: int| 0 <= k < before.len() implies all[k] == before[k]
            && Pool::<T, N>::live_in(slots, all[k]) && all[k].index < last by {
            assert(Pool::<T, N>::live_in(earlier, before[k]));
            assert(slots[before[k].index as int] == earlier[before[k].index as int]);
        }
        if slots.last().value is Some {
            assert(all.len() == before.len() + 1);
            assert(all[before.len() as int].index == last);
        } else {
            assert(all == before);
        }
        assert forall|i: int| 0 <= i < slots.len() && (#[trigger] slots[i]).value is Some implies exists|k: int|
            0 <= k < all.len() && (#[trigger] all[k]).index == i by {
            if i < last {
                assert(earlier[i] == slots[i]);
                let k = choose|k: int| 0 <= k < before.len() && (#[trigger] before[k]).index == i;
                assert(all[k] == before[k]);
            } else {
                assert(all[before.len() as int].index == i);
            }
        }
    }
}

} // verus!
