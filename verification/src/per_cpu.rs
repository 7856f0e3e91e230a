//! The per-CPU block: one entry per CPU holding its architecture state,
//! timer wheel, executor, the running process, and the cross-CPU work
//! queue.
//!
//! Each block is read and written only by its own CPU, except the work
//! queue and the executor's to-poll queue, which other CPUs push through
//! the kernel's serialized entry points.

use vstd::prelude::*;
use crate::executor::Executor;
use crate::ipi::IpiFunction;
use crate::timer::Timer;
use crate::x86::cpu::{Cpu, Stack};

verus! {

/// One CPU's state.
pub struct PerCpu {
    pub arch: Cpu,
    pub timer: Timer,
    pub executor: Executor,
    pub running: Option<u64>,
    pub ipi_queue: Vec<IpiFunction>,
}

impl PerCpu {
    pub open spec fn wf(self) -> bool {
        &&& self.timer.wf()
        &&& self.executor.wf()
    }

    /// A fresh block: nothing running, empty wheel, executor and queue.
    pub fn new() -> (r: PerCpu)
        ensures
            r.wf(),
            !r.arch.initialized,
            r.timer.ticks == 0,
            r.timer.events@ == Seq::<crate::timer::TimerEvent>::empty(),
            r.executor.tasks@ == Seq::<crate::executor::Task>::empty(),
            r.executor.tasks_to_poll@ == Seq::<u64>::empty(),
            r.running is None,
            r.ipi_queue@ == Seq::<IpiFunction>::empty(),
    {
        PerCpu {
            arch: Cpu::new(),
            timer: Timer::new(),
            executor: Executor::new(),
            running: None,
            ipi_queue: Vec::new(),
        }
    }

    /// A throwaway value for take-and-put-back swaps of table slots.
    pub fn placeholder() -> (r: PerCpu)
        ensures r.wf(),
    {
        PerCpu::new()
    }

    /// The pid running on this CPU, if any.
    pub fn running(&self) -> (r: Option<u64>)
        ensures r == self.running,
    {
        self.running
    }

    /// Record the pid now running on this CPU.
    pub fn set_running(&mut self, proc: Option<u64>)
        ensures
            final(self).running == proc,
            final(self).arch == old(self).arch,
            final(self).timer == old(self).timer,
            final(self).executor == old(self).executor,
            final(self).ipi_queue@ == old(self).ipi_queue@,
    {
        self.running = proc;
    }

    /// This CPU's tick count.
    pub fn ticks(&self) -> (r: u64)
        ensures r == self.timer.ticks,
    {
        self.timer.ticks()
    }

    /// Build the whole per-CPU table and set each block up with its
    /// stacks and task-segment address.
    pub fn init(count: usize, stacks: &Vec<(Stack, Stack, u64)>) -> (r: Vec<PerCpu>)
        requires
            stacks@.len() == count,
            forall|k: int| 0 <= k < count
                ==> (#[trigger] stacks@[k]).0.base + crate::x86::cpu::STACK_SIZE <= u64::MAX
                    && stacks@[k].1.base + crate::x86::cpu::STACK_SIZE <= u64::MAX,
        ensures
            r@.len() == count,
            forall|k: int| 0 <= k < count ==> (#[trigger] r@[k]).wf()
                && r@[k].arch.initialized
                && r@[k].running is None
                && r@[k].arch.tss.rsp0
                    == stacks@[k].0.base + crate::x86::cpu::STACK_SIZE
                && r@[k].arch.tss.ist1
                    == stacks@[k].1.base + crate::x86::cpu::STACK_SIZE
                && r@[k].arch.gdt@
                    == crate::x86::gdt::expected_gdt_words(stacks@[k].2),
    {
        let mut cpus: Vec<PerCpu> = Vec::new();
        let mut i: usize = 0;
        while i < count
            invariant
                cpus@.len() == i,
                i <= count,
                stacks@.len() == count,
                forall|k: int| 0 <= k < count
                    ==> (#[trigger] stacks@[k]).0.base + crate::x86::cpu::STACK_SIZE <= u64::MAX
                        && stacks@[k].1.base + crate::x86::cpu::STACK_SIZE <= u64::MAX,
                forall|k: int| 0 <= k < i ==> (#[trigger] cpus@[k]).wf()
                    && cpus@[k].arch.initialized
                    && cpus@[k].running is None
                    && cpus@[k].arch.tss.rsp0
                        == stacks@[k].0.base + crate::x86::cpu::STACK_SIZE
                    && cpus@[k].arch.tss.ist1
                        == stacks@[k].1.base + crate::x86::cpu::STACK_SIZE
                    && cpus@[k].arch.gdt@
                        == crate::x86::gdt::expected_gdt_words(stacks@[k].2),
            decreases count - i,
        {
            let mut cpu = PerCpu::new();
            let (stack, df_stack, tss_addr) = stacks[i];
            cpu.arch.setup(stack, df_stack, tss_addr);
            cpus.push(cpu);
            i = i + 1;
        }
        cpus
    }
}

} // verus!
