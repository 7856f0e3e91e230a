//! Interrupt routing: which handler a pushed vector reaches, and the
//! decoded cause of a page fault.

use vstd::prelude::*;

verus! {

/// Where the kernel routes a vector.
#[derive(Copy, Clone, PartialEq, Eq, Structural, Debug)]
pub enum HandlerRoute {
    Debug,
    Breakpoint,
    PageFault,
    Irq(u64),
    Syscall,
    Ipi,
    IpiPanic,
    Unexpected,
}

/// The routing of each vector: the handled exceptions, device lines 32
/// to 47, the syscall vector 128, the cross-CPU work vector 129, and the
/// panic vector 130; everything else is unexpected and fatal.
pub open spec fn spec_route(n: u64) -> HandlerRoute {
    if n == 1 {
        HandlerRoute::Debug
    } else if n == 3 {
        HandlerRoute::Breakpoint
    } else if n == 14 {
        HandlerRoute::PageFault
    } else if 32 <= n <= 47 {
        HandlerRoute::Irq((n - 32) as u64)
    } else if n == 128 {
        HandlerRoute::Syscall
    } else if n == 129 {
        HandlerRoute::Ipi
    } else if n == 130 {
        HandlerRoute::IpiPanic
    } else {
        HandlerRoute::Unexpected
    }
}

#[verifier::when_used_as_spec(spec_route)]
pub fn route(n: u64) -> (r: HandlerRoute)
    ensures r == spec_route(n),
{
    if n == 1 {
        HandlerRoute::Debug
    } else if n == 3 {
        HandlerRoute::Breakpoint
    } else if n == 14 {
        HandlerRoute::PageFault
    } else if 32 <= n && n <= 47 {
        HandlerRoute::Irq(n - 32)
    } else if n == 128 {
        HandlerRoute::Syscall
    } else if n == 129 {
        HandlerRoute::Ipi
    } else if n == 130 {
        HandlerRoute::IpiPanic
    } else {
        HandlerRoute::Unexpected
    }
}

/// The decoded cause of a page fault, bit by bit of its error code.
#[derive(Copy, Clone, PartialEq, Eq, Structural, Debug)]
pub struct PageFaultReport {
    /// Bits outside the architecture's five are set: unknown condition.
    pub unknown_condition: bool,
    /// The fault came from writing a reserved field.
    pub reserved_field: bool,
    /// A protection violation, as opposed to a non-present page.
    pub protection_violation: bool,
    /// The access was a write, as opposed to a read.
    pub write: bool,
    /// The access came from user mode, as opposed to kernel mode.
    pub user_mode: bool,
    /// The access was an instruction fetch, as opposed to data.
    pub instruction_fetch: bool,
}

/// Decode a page-fault error code.
pub fn decode_page_fault(error_code: u64) -> (r: PageFaultReport)
    ensures
        r.unknown_condition == (error_code & !0x1f != 0),
        r.reserved_field == (error_code & 0x8 != 0),
        r.protection_violation == (error_code & 0x1 != 0),
        r.write == (error_code & 0x2 != 0),
        r.user_mode == (error_code & 0x4 != 0),
        r.instruction_fetch == (error_code & 0x10 != 0),
{
    PageFaultReport {
        unknown_condition: error_code & !0x1f != 0,
        reserved_field: error_code & 0x8 != 0,
        protection_violation: error_code & 0x1 != 0,
        write: error_code & 0x2 != 0,
        user_mode: error_code & 0x4 != 0,
        instruction_fetch: error_code & 0x10 != 0,
    }
}

/// The architecture's name and mnemonic for one exception vector.
#[derive(Copy, Clone, PartialEq, Eq, Debug)]
pub struct InterruptInfo {
    pub name: &'static str,
    pub short: &'static str,
}

/// The names of the architectural exceptions; vectors past the defined
/// range are reserved.
pub fn interrupt_info(n: u64) -> (r: InterruptInfo)
{
    if n == 0 {
        InterruptInfo { name: "Divide Error", short: "#DE" }
    } else if n == 1 {
        InterruptInfo { name: "Debug Exception", short: "#DB" }
    } else if n == 2 {
        InterruptInfo { name: "Non-Maskable Interrupt", short: "NMI" }
    } else if n == 3 {
        InterruptInfo { name: "Breakpoint", short: "#BP" }
    } else if n == 4 {
        InterruptInfo { name: "Overflow", short: "#OF" }
    } else if n == 5 {
        InterruptInfo { name: "Bound Range Exceeded", short: "#BR" }
    } else if n == 6 {
        InterruptInfo { name: "Invalid Opcode", short: "#UD" }
    } else if n == 7 {
        InterruptInfo { name: "Device Not Available", short: "#NM" }
    } else if n == 8 {
        InterruptInfo { name: "Double Fault", short: "#DF" }
    } else if n == 9 {
        InterruptInfo { name: "Coprocessor Segment Overrun", short: "<none>" }
    } else if n == 10 {
        InterruptInfo { name: "Invalid TSS", short: "#TS" }
    } else if n == 11 {
        InterruptInfo { name: "Segment Not Present", short: "#NP" }
    } else if n == 12 {
        InterruptInfo { name: "Stack-Segment Fault", short: "#SS" }
    } else if n == 13 {
        InterruptInfo { name: "General Protection Fault", short: "#GP" }
    } else if n == 14 {
        InterruptInfo { name: "Page Fault", short: "#PF" }
    } else if n == 16 {
        InterruptInfo { name: "x87 Floating-Point Exception", short: "#MF" }
    } else if n == 17 {
        InterruptInfo { name: "Alignment Check", short: "#AC" }
    } else if n == 18 {
        InterruptInfo { name: "Machine Check", short: "#MC" }
    } else if n == 19 {
        InterruptInfo { name: "SIMD Floating-Point Exception", short: "#XM" }
    } else if n == 20 {
        InterruptInfo { name: "Virtualization Exception", short: "#VE" }
    } else if n == 21 {
        InterruptInfo { name: "Control Protection Exception", short: "#CP" }
    } else if n == 30 {
        InterruptInfo { name: "Security Exception", short: "#SX" }
    } else {
        InterruptInfo { name: "Reserved", short: "<reserved>" }
    }
}

} // verus!
