//! The architecture interface the kernel is written against, and the
//! interrupt sources the portable layer distinguishes.

use vstd::prelude::*;

verus! {

/// What an architecture implementation owes the kernel.  Addresses cross
/// this boundary as plain integers; the implementation lives with the
/// embedding program, next to the hardware it drives.
pub trait Arch {
    /// One-time system setup before any other call.
    fn early_system_init(&self);
    /// Per-CPU setup, run once on each CPU.
    fn early_cpu_init(&self);
    /// This CPU's number.
    fn cpu_num(&self) -> u32;
    /// The kernel-half alias of a physical address.
    fn direct_map(&self, addr: u64) -> u64;
    /// Allow interrupts on this CPU.
    fn enable_interrupts(&self);
    /// Forbid interrupts on this CPU.
    fn disable_interrupts(&self);
    /// Ring `vector` on `cpu_id`.
    fn send_ipi(&self, cpu_id: u8, vector: u8);
    /// Idle until an interrupt arrives, forever.
    fn sleep_forever(&self);
    /// Halt with interrupts disabled, forever.
    fn sleep_forever_no_irq(&self);
}

/// Device interrupt sources the portable layer reacts to.
#[derive(Copy, Clone, PartialEq, Eq, Structural, Debug)]
pub enum InterruptSource {
    SerialPort,
}

} // verus!
