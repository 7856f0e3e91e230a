//! Architecture layer: page-table entries and address spaces, register
//! contexts, descriptor tables, and interrupt routing.

use vstd::prelude::*;

pub mod context;
pub mod cpu;
pub mod frame;
pub mod gdt;
pub mod idt;
pub mod interrupts;
pub mod page;

verus! {

/// Bytes per page on this architecture.
pub const PAGE_SIZE: usize = 4096;

/// Mask selecting the in-page offset of an address.
pub const PAGE_MASK: usize = 0xfff;

/// Top of the fixed usermode stack region.
pub const USER_STACK_TOP: u64 = 0x0000_7fff_ff00_0000;

/// Pages of fresh memory mapped for a new process's stack.
pub const USER_STACK_PAGES: usize = 4;

/// Lowest address of the usermode stack region.
pub const USER_STACK_BASE: u64 = 0x0000_7fff_feff_c000;

/// The kernel-half virtual address at which physical address `phy` is
/// reachable, given the direct-map offset the bootloader reported.
pub fn direct_map_offset(phy: u64, hhdm_offset: u64) -> (r: u64)
    requires
        phy + hhdm_offset <= u64::MAX,
    ensures
        r == phy + hhdm_offset,
{
    phy + hhdm_offset
}

} // verus!
