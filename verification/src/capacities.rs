//! The kernel's fixed capacity bounds, in one reviewable place, and the
//! static-memory budget their backing storage has to fit within.
//!
//! The element sizes the storage is made of belong to the platform layer;
//! they come in as a [`Footprint`], and the accounting over them is here.

use vstd::prelude::*;

verus! {

/// Capacity bound for boot-time CPU topology discovery.
pub const MAX_CPUS: usize = 64;

/// Capacity bound for boot-time PCI bus enumeration.
pub const MAX_PCI_DEVICES: usize = 64;

/// Capacity bound for the page-table frame pool an address space is built
/// against.
pub const EXEC_FRAME_POOL_CAPACITY: usize = 16;

/// Capacity bound for the kernel's fault-audit journal.
pub const SPOOR_JOURNAL_CAPACITY: usize = 64;

/// The static-memory budget every capacity above must fit within, combined.
pub const STATIC_MEMORY_BUDGET_BYTES: usize = 8 * 1024 * 1024;

/// The platform sizes the committed storage is made of.
#[derive(Debug, Clone, Copy, PartialEq, Eq, Structural)]
pub struct Footprint {
    /// Bytes of one CPU descriptor.
    pub cpu_descriptor: usize,
    /// Bytes of one PCI device descriptor.
    pub device_descriptor: usize,
    /// Bytes of one page table.
    pub page_table: usize,
    /// Bytes of the interrupt stacks, all together.
    pub ist_stack_bytes: usize,
    /// Bytes of the privilege-transition stack.
    pub ring0_entry_stack_bytes: usize,
}

/// The static bytes the capacities commit given `footprint`: each capacity
/// times its element size, one 8-byte word per journal record, and both
/// kinds of reserved stack.
pub open spec fn committed(footprint: Footprint) -> int {
    MAX_CPUS * footprint.cpu_descriptor + MAX_PCI_DEVICES * footprint.device_descriptor
        + EXEC_FRAME_POOL_CAPACITY * footprint.page_table + SPOOR_JOURNAL_CAPACITY * 8
        + footprint.ist_stack_bytes + footprint.ring0_entry_stack_bytes
}

/// The static bytes the capacities commit given `footprint`, or `None` when
/// the total does not fit in a `usize`.
pub fn committed_bytes(footprint: &Footprint) -> (r: Option<usize>)
    ensures
        committed(*footprint) <= usize::MAX ==> r == Some(committed(*footprint) as usize),
        committed(*footprint) > usize::MAX ==> r is None,
{
    let cpus = MAX_CPUS.checked_mul(footprint.cpu_descriptor);
    let devices = MAX_PCI_DEVICES.checked_mul(footprint.device_descriptor);
    let frames = EXEC_FRAME_POOL_CAPACITY.checked_mul(footprint.page_table);
    let (cpus, devices, frames) = match (cpus, devices, frames) {
        (Some(c), Some(d), Some(f)) => (c, d, f),
        _ => return None,
    };
    let total = match cpus.checked_add(devices) {
        Some(t) => t,
        None => return None,
    };
    let total = match total.checked_add(frames) {
        Some(t) => t,
        None => return None,
    };
    let total = match total.checked_add(SPOOR_JOURNAL_CAPACITY * 8) {
        Some(t) => t,
        None => return None,
    };
    let total = match total.checked_add(footprint.ist_stack_bytes) {
        Some(t) => t,
        None => return None,
    };
    total.checked_add(footprint.ring0_entry_stack_bytes)
}

/// Whether the capacities' committed storage fits the static-memory budget.
pub fn fits_budget(footprint: &Footprint) -> (r: bool)
    ensures
        r == (committed(*footprint) <= STATIC_MEMORY_BUDGET_BYTES),
{
    match committed_bytes(footprint) {
        Some(total) => total <= STATIC_MEMORY_BUDGET_BYTES,
        None => false,
    }
}

} // verus!
