//! The verified core of a small real-time kernel: bounded object pools, a
//! fixed-priority scheduler with priority inheritance, cooperative dispatch
//! and tick preemption decisions, bounded IPC channels, fault containment,
//! a deadline-bounded actuation port, an audit journal, and the measurement
//! and qualification arithmetic the kernel's evidence is reported in.

pub mod actuation;
pub mod bench;
pub mod board_dispatch;
pub mod capacities;
pub mod context;
pub mod dispatch;
pub mod fault;
pub mod ipc;
pub mod lock;
pub mod measure;
pub mod measure_phases;
pub mod mem;
pub mod preempt;
pub mod qual_campaign;
pub mod sched;
pub mod sorting;
pub mod spoor;
pub mod text;
