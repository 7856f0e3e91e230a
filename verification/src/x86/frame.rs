//! A plain view of the trampoline's register frame, with the syscall
//! result written back as a raw value.

use vstd::prelude::*;

verus! {

/// The register frame as the interrupt trampoline pushes it.
#[derive(Copy, Clone, PartialEq, Eq, Structural, Debug)]
pub struct InterruptFrame {
    pub ds: u64,
    pub r15: u64,
    pub r14: u64,
    pub r13: u64,
    pub r12: u64,
    pub r11: u64,
    pub r10: u64,
    pub r9: u64,
    pub r8: u64,
    pub rbp: u64,
    pub rdi: u64,
    pub rsi: u64,
    pub rdx: u64,
    pub rcx: u64,
    pub rbx: u64,
    pub rax: u64,
    pub interrupt_number: u64,
    pub error_code: u64,
    pub ip: u64,
    pub cs: u64,
    pub flags: u64,
    pub user_sp: u64,
    pub ss: u64,
}

/// An all-zero frame.
pub open spec fn spec_zero_frame() -> InterruptFrame {
    InterruptFrame {
        ds: 0, r15: 0, r14: 0, r13: 0, r12: 0, r11: 0, r10: 0, r9: 0, r8: 0,
        rbp: 0, rdi: 0, rsi: 0, rdx: 0, rcx: 0, rbx: 0, rax: 0,
        interrupt_number: 0, error_code: 0, ip: 0, cs: 0, flags: 0,
        user_sp: 0, ss: 0,
    }
}

impl InterruptFrame {
    /// An all-zero frame.
    pub fn new() -> (r: InterruptFrame)
        ensures r == spec_zero_frame(),
    {
        InterruptFrame {
            ds: 0, r15: 0, r14: 0, r13: 0, r12: 0, r11: 0, r10: 0, r9: 0, r8: 0,
            rbp: 0, rdi: 0, rsi: 0, rdx: 0, rcx: 0, rbx: 0, rax: 0,
            interrupt_number: 0, error_code: 0, ip: 0, cs: 0, flags: 0,
            user_sp: 0, ss: 0,
        }
    }

    /// A fresh usermode frame: user selectors, interrupts enabled, stack
    /// at the fixed top.
    pub fn new_user(ip: u64) -> (r: InterruptFrame)
        requires ip != 0,
        ensures
            r == (InterruptFrame {
                r12: 0x1234u64,
                ip,
                cs: 0x1bu64,
                flags: 0x200u64,
                ss: 0x23u64,
                user_sp: crate::x86::USER_STACK_TOP,
                ..spec_zero_frame()
            }),
    {
        InterruptFrame {
            r12: 0x1234,
            ip,
            cs: 0x1b,
            flags: 0x200,
            ss: 0x23,
            user_sp: crate::x86::USER_STACK_TOP,
            ..InterruptFrame::new()
        }
    }

    /// The vector this frame was pushed for.
    pub fn interrupt_number(&self) -> (r: u64)
        ensures r == self.interrupt_number,
    {
        self.interrupt_number
    }

    /// Write a raw syscall result value into the return register.
    pub fn set_syscall_return(&mut self, value: u64)
        ensures *final(self) == (InterruptFrame { rax: value, ..*old(self) }),
    {
        self.rax = value;
    }

    /// The interrupted instruction pointer.
    pub fn ip(&self) -> (r: u64)
        ensures r == self.ip,
    {
        self.ip
    }
}

} // verus!
