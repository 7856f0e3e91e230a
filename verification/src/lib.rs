//! Core of a preemptive multi-CPU microkernel, modelled as explicit state.
//!
//! The crate verifies the kernel's decision logic: the physical frame
//! allocator, the four-level address-space builder, the per-CPU timer wheel
//! and task executor, the process table and scheduler, the datagram socket
//! layer and the syscall dispatcher.  Hardware access (port I/O, control
//! registers, the actual context switch) is left to the embedding program;
//! the library computes every decision and hands back the actions to perform.

use vstd::prelude::*;

pub mod arch;
pub mod interface;
pub mod ipi;
pub mod limine;
pub mod net;
pub mod executor;
pub mod pci;
pub mod per_cpu;
pub mod pmm;
pub mod process;
pub mod syscalls;
pub mod timer;
pub mod vmm;
pub mod x86;

verus! {

/// Number of CPUs the per-CPU table is sized for.
pub const NUM_CPUS: usize = 16;

/// Length of a scheduling timeslice, in timer ticks.
pub const TIMESLICE_TICKS: u64 = 10;

} // verus!
