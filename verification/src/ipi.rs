//! Cross-CPU work: thunks delivered by broadcast interrupt.
//!
//! A submitted thunk is queued on the target CPU and the embedding
//! program fires the work vector; the receiving CPU drains its queue
//! from the handler.  The one thunk the kernel broadcasts is a backtrace
//! request; the panic vector bypasses the queues and halts its receiver.

use vstd::prelude::*;
use crate::per_cpu::PerCpu;

verus! {

/// The work vector a broadcast rings.
pub const IPI_VECTOR: u8 = 129;

/// The vector that halts its receiver after a panic.
pub const IPI_PANIC_VECTOR: u8 = 130;

/// What a queued thunk does when run.
#[derive(Copy, Clone, PartialEq, Eq, Structural, Debug)]
pub enum IpiKind {
    /// Print a backtrace of the process running on the receiving CPU.
    Backtrace,
}

/// One queued cross-CPU thunk.
#[derive(Copy, Clone, PartialEq, Eq, Structural, Debug)]
pub struct IpiFunction {
    pub kind: IpiKind,
}

impl IpiFunction {
    pub fn new(kind: IpiKind) -> (r: IpiFunction)
        ensures r.kind == kind,
    {
        IpiFunction { kind }
    }

    /// Consume the thunk, handing back the work to perform.
    pub fn call(self) -> (r: IpiKind)
        ensures r == self.kind,
    {
        self.kind
    }
}

/// Drain the receiving CPU's queue, oldest first, handing back the work
/// each thunk asks for.
pub fn handle_ipi_irq(cpu: &mut PerCpu) -> (work: Vec<IpiKind>)
    ensures
        final(cpu).ipi_queue@ == Seq::<IpiFunction>::empty(),
        work@ == old(cpu).ipi_queue@.map_values(|f: IpiFunction| f.kind),
        final(cpu).timer == old(cpu).timer,
        final(cpu).executor == old(cpu).executor,
        final(cpu).running == old(cpu).running,
        final(cpu).arch == old(cpu).arch,
{
    let mut work: Vec<IpiKind> = Vec::new();
    let ghost orig = cpu.ipi_queue@;
    while cpu.ipi_queue.len() > 0
        invariant
            work@.len() + cpu.ipi_queue@.len() == orig.len(),
            cpu.ipi_queue@ =~= orig.skip(work@.len() as int),
            work@ =~= orig.take(work@.len() as int).map_values(|f: IpiFunction| f.kind),
            cpu.timer == old(cpu).timer,
            cpu.executor == old(cpu).executor,
            cpu.running == old(cpu).running,
            cpu.arch == old(cpu).arch,
        decreases cpu.ipi_queue@.len(),
    {
        let f = cpu.ipi_queue.remove(0);
        proof {
            let n = work@.len() as int;
            assert(f == orig[n]);
            assert(orig.skip(n).drop_first() =~= orig.skip(n + 1));
            assert(orig.take(n + 1).map_values(|g: IpiFunction| g.kind)
                =~= orig.take(n).map_values(|g: IpiFunction| g.kind).push(f.kind));
        }
        work.push(f.call());
    }
    proof {
        assert(orig.take(orig.len() as int) =~= orig);
    }
    work
}

/// Queue `kind` on one CPU; the embedding program then fires the work
/// vector at it.
pub fn submit_ipi_to_cpu(cpu: &mut PerCpu, kind: IpiKind)
    ensures
        final(cpu).ipi_queue@ == old(cpu).ipi_queue@.push(IpiFunction { kind }),
        final(cpu).timer == old(cpu).timer,
        final(cpu).executor == old(cpu).executor,
        final(cpu).running == old(cpu).running,
        final(cpu).arch == old(cpu).arch,
{
    cpu.ipi_queue.push(IpiFunction::new(kind));
}

/// Queue `kind` on every CPU; the embedding program then broadcasts the
/// work vector.
pub fn submit_ipi_to_all_cpus(cpus: &mut Vec<PerCpu>, kind: IpiKind)
    ensures
        final(cpus)@.len() == old(cpus)@.len(),
        forall|i: int| 0 <= i < old(cpus)@.len() ==> {
            &&& (#[trigger] final(cpus)@[i]).ipi_queue@
                    == old(cpus)@[i].ipi_queue@.push(IpiFunction { kind })
            &&& final(cpus)@[i].timer == old(cpus)@[i].timer
            &&& final(cpus)@[i].executor == old(cpus)@[i].executor
            &&& final(cpus)@[i].running == old(cpus)@[i].running
            &&& final(cpus)@[i].arch == old(cpus)@[i].arch
        },
{
    let mut i: usize = 0;
    while i < cpus.len()
        invariant
            0 <= i <= cpus@.len(),
            cpus@.len() == old(cpus)@.len(),
            forall|k: int| 0 <= k < i ==> {
                &&& (#[trigger] cpus@[k]).ipi_queue@
                        == old(cpus)@[k].ipi_queue@.push(IpiFunction { kind })
                &&& cpus@[k].timer == old(cpus)@[k].timer
                &&& cpus@[k].executor == old(cpus)@[k].executor
                &&& cpus@[k].running == old(cpus)@[k].running
                &&& cpus@[k].arch == old(cpus)@[k].arch
            },
            forall|k: int| i <= k < cpus@.len()
                ==> #[trigger] cpus@[k] == old(cpus)@[k],
        decreases cpus@.len() - i,
    {
        let ghost before = cpus@;
        let mut cpu = PerCpu::placeholder();
        cpus.set_and_swap(i, &mut cpu);
        submit_ipi_to_cpu(&mut cpu, kind);
        cpus.set_and_swap(i, &mut cpu);
        proof {
            assert(cpus@[i as int].ipi_queue@
                == old(cpus)@[i as int].ipi_queue@.push(IpiFunction { kind }));
            assert(forall|k: int| 0 <= k < cpus@.len() && k != i
                ==> #[trigger] cpus@[k] == before[k]);
        }
        i = i + 1;
    }
}

} // verus!
