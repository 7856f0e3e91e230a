//! Per-CPU architecture state: the descriptor table, the task-state
//! segment, and the kernel and double-fault stacks.

use vstd::prelude::*;
use crate::x86::gdt::{Tss, expected_gdt_words, init_in_place};

verus! {

/// Bytes in one kernel stack.
pub const STACK_SIZE: u64 = 16384;

/// One kernel stack, identified by the base address of its backing
/// memory.
#[derive(Copy, Clone, PartialEq, Eq, Structural, Debug)]
pub struct Stack {
    pub base: u64,
}

impl Stack {
    /// The address just past the stack, where pushes start.
    pub fn top(&self) -> (r: u64)
        requires
            self.base + STACK_SIZE <= u64::MAX,
        ensures
            r == self.base + STACK_SIZE,
    {
        self.base + STACK_SIZE
    }
}

/// One CPU's architecture block.
pub struct Cpu {
    pub initialized: bool,
    pub gdt: Vec<u64>,
    pub tss: Tss,
    pub stack: Stack,
    pub df_stack: Stack,
}

impl Cpu {
    /// A block not yet set up.
    pub fn new() -> (r: Cpu)
        ensures
            !r.initialized,
            r.gdt@.len() == 0,
            r.tss == (Tss {
                reserved: 0u32, rsp0: 0u64, rsp1: 0u64, rsp2: 0u64, reserved2: 0u64,
                ist1: 0u64, ist2: 0u64, ist3: 0u64, ist4: 0u64, ist5: 0u64,
                ist6: 0u64, ist7: 0u64, reserved3: 0u64, reserved4: 0u16,
                iomap_base: 0u16,
            }),
            r.stack.base == 0,
            r.df_stack.base == 0,
    {
        Cpu {
            initialized: false,
            gdt: Vec::new(),
            tss: Tss::new(),
            stack: Stack { base: 0 },
            df_stack: Stack { base: 0 },
        }
    }

    /// Set the block up once: build the descriptor words for the task
    /// segment at `tss_addr`, and point the task segment at this CPU's
    /// kernel and double-fault stacks.  A second setup of one CPU is a
    /// fault and never happens.
    pub fn setup(&mut self, stack: Stack, df_stack: Stack, tss_addr: u64)
        requires
            !old(self).initialized,
            stack.base + STACK_SIZE <= u64::MAX,
            df_stack.base + STACK_SIZE <= u64::MAX,
        ensures
            final(self).initialized,
            final(self).gdt@ == expected_gdt_words(tss_addr),
            final(self).tss.rsp0 == stack.base + STACK_SIZE,
            final(self).tss.ist1 == df_stack.base + STACK_SIZE,
            final(self).stack == stack,
            final(self).df_stack == df_stack,
    {
        self.initialized = true;
        init_in_place(&mut self.gdt, tss_addr);
        self.stack = stack;
        self.df_stack = df_stack;
        let st = stack.top();
        let dt = df_stack.top();
        self.tss.set_kernel_stack(st);
        self.tss.set_df_stack(dt);
    }
}

/// The stack the CPU returns to when usermode traps in.
pub fn kernel_stack(cpu: &Cpu) -> (r: u64)
    ensures r == cpu.tss.rsp0,
{
    cpu.tss.kernel_stack()
}

} // verus!
