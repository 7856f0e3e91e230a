//! Saved execution contexts: the interrupt frame the trampoline builds on
//! the kernel stack, and the full context (frame plus FPU state) a process
//! record keeps between dispatches.

use vstd::prelude::*;
use crate::interface::{SyscallReturn, return_tag, return_payload, spec_return_tag, spec_return_payload};

verus! {

/// The x86 flag word a fresh usermode context starts with: interrupts
/// enabled.
pub const DEFAULT_FLAGS: u64 = 0x200;

/// Code and stack selectors of usermode, and the fixed start of its stack.
pub const USER_CS: u64 = 0x1b;
pub const USER_SS: u64 = 0x23;

/// The register frame the interrupt trampoline pushes, in stack order.
#[derive(Copy, Clone, PartialEq, Eq, Structural, Debug)]
pub struct InterruptFrame {
    pub ds: u64,
    pub r15: u64,
    pub r14: u64,
    pub r13: u64,
    pub r12: u64,
    pub r11: u64,
    pub r10: u64,
    pub r9: u64,
    pub r8: u64,
    pub rbp: u64,
    pub rdi: u64,
    pub rsi: u64,
    pub rdx: u64,
    pub rcx: u64,
    pub rbx: u64,
    pub rax: u64,
    pub interrupt_number: u64,
    pub error_code: u64,
    pub ip: u64,
    pub cs: u64,
    pub flags: u64,
    pub user_sp: u64,
    pub ss: u64,
}

/// An all-zero frame.
pub open spec fn zero_frame() -> InterruptFrame {
    InterruptFrame {
        ds: 0, r15: 0, r14: 0, r13: 0, r12: 0, r11: 0, r10: 0, r9: 0, r8: 0,
        rbp: 0, rdi: 0, rsi: 0, rdx: 0, rcx: 0, rbx: 0, rax: 0,
        interrupt_number: 0, error_code: 0, ip: 0, cs: 0, flags: 0,
        user_sp: 0, ss: 0,
    }
}

impl InterruptFrame {
    /// An all-zero frame.
    pub fn new() -> (r: InterruptFrame)
        ensures r == zero_frame(),
    {
        InterruptFrame {
            ds: 0, r15: 0, r14: 0, r13: 0, r12: 0, r11: 0, r10: 0, r9: 0, r8: 0,
            rbp: 0, rdi: 0, rsi: 0, rdx: 0, rcx: 0, rbx: 0, rax: 0,
            interrupt_number: 0, error_code: 0, ip: 0, cs: 0, flags: 0,
            user_sp: 0, ss: 0,
        }
    }

    /// A fresh usermode frame entering at `ip` with the fixed user stack,
    /// user selectors, and interrupts enabled.  Entry at address zero is
    /// never created.
    pub fn new_user(ip: u64) -> (r: InterruptFrame)
        requires
            ip != 0,
        ensures
            r == (InterruptFrame {
                r12: 0x1234u64,
                ip,
                cs: USER_CS,
                flags: DEFAULT_FLAGS,
                ss: USER_SS,
                user_sp: crate::x86::USER_STACK_TOP,
                ..zero_frame()
            }),
    {
        InterruptFrame {
            r12: 0x1234,
            ip,
            cs: USER_CS,
            flags: DEFAULT_FLAGS,
            ss: USER_SS,
            user_sp: crate::x86::USER_STACK_TOP,
            ..InterruptFrame::new()
        }
    }

    /// The vector number this frame was pushed for.
    pub fn interrupt_number(&self) -> (r: u64)
        ensures r == self.interrupt_number,
    {
        self.interrupt_number
    }

    /// The interrupted instruction pointer.
    pub fn ip(&self) -> (r: u64)
        ensures r == self.ip,
    {
        self.ip
    }

    /// Whether the frame was pushed while usermode was running.
    pub fn from_usermode(&self) -> (r: bool)
        ensures r == (self.cs & 0x3 == 0x3),
    {
        self.cs & 0x3 == 0x3
    }

    /// The task id a syscall passes in its second register.
    pub fn task_id(&self) -> (r: u64)
        ensures r == self.rdi,
    {
        self.rdi
    }

    /// The base of the caller's tasks-to-wake buffer (third register) and
    /// its capacity in ids (fourth register).
    pub fn tasks_to_wake(&self) -> (r: (u64, u64))
        ensures r == (self.rsi, self.rdx),
    {
        (self.rsi, self.rdx)
    }

    /// Store how many task ids were written back into the caller's
    /// tasks-to-wake buffer.
    pub fn set_tasks_to_wake_count(&mut self, count: u64)
        ensures
            *final(self) == (InterruptFrame { rdx: count, ..*old(self) }),
    {
        self.rdx = count;
    }

    /// Encode the three-state result into the frame: the tag (0 complete,
    /// 1 not complete, 2 error) in the first return register, the value or
    /// error code in the second.
    pub fn set_syscall_return(&mut self, value: SyscallReturn)
        ensures
            *final(self) == (InterruptFrame {
                rax: spec_return_tag(value),
                rdi: spec_return_payload(value),
                ..*old(self)
            }),
    {
        self.rax = return_tag(value);
        self.rdi = return_payload(value);
    }
}

/// An FPU register blob as `fxsave` lays it out.
#[derive(Clone, PartialEq, Eq, Debug)]
pub struct FpuContext(pub Vec<u8>);

impl FpuContext {
    /// A zeroed blob of the fixed 512-byte save-area size.
    pub fn new() -> (r: FpuContext)
        ensures
            r.0@.len() == 512,
            forall|i: int| 0 <= i < 512 ==> r.0@[i] == 0u8,
    {
        let mut v: Vec<u8> = Vec::new();
        let mut i: usize = 0;
        while i < 512
            invariant
                v@.len() == i,
                i <= 512,
                forall|k: int| 0 <= k < i ==> v@[k] == 0u8,
            decreases 512 - i,
        {
            v.push(0);
            i = i + 1;
        }
        FpuContext(v)
    }
}

/// The full saved context of a process: the register frame, the FPU blob,
/// and whether the blob holds a real `fxsave` capture.
#[derive(Clone, PartialEq, Eq, Debug)]
pub struct Context {
    pub frame: InterruptFrame,
    pub fpu_context: FpuContext,
    pub has_fpu_context: bool,
}

impl Context {
    /// The context of a brand-new usermode process entering at `user_ip`.
    pub fn new_user(user_ip: u64) -> (r: Context)
        requires
            user_ip != 0,
        ensures
            r.frame == (InterruptFrame {
                r12: 0x1234u64,
                ip: user_ip,
                cs: USER_CS,
                flags: DEFAULT_FLAGS,
                ss: USER_SS,
                user_sp: crate::x86::USER_STACK_TOP,
                ..zero_frame()
            }),
            !r.has_fpu_context,
    {
        Context {
            frame: InterruptFrame::new_user(user_ip),
            fpu_context: FpuContext::new(),
            has_fpu_context: false,
        }
    }

    /// Capture a context from a saved frame.  The FPU blob itself is
    /// captured by the embedding program with `fxsave`; the record marks
    /// it valid.
    pub fn new(frame: &InterruptFrame) -> (r: Context)
        ensures
            r.frame == *frame,
            r.has_fpu_context,
    {
        Context {
            frame: *frame,
            fpu_context: FpuContext::new(),
            has_fpu_context: true,
        }
    }

    /// Set the single register argument the entry point receives.
    pub fn set_arg1(&mut self, arg1: u64)
        ensures
            *final(self) == (Context {
                frame: InterruptFrame { rdi: arg1, ..old(self).frame },
                ..*old(self)
            }),
    {
        self.frame.rdi = arg1;
    }
}

} // verus!
