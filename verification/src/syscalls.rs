//! The assembled kernel state and its entry points: syscall dispatch,
//! executor polling, timer interrupts, and the return-from-interrupt
//! scheduling flow.
//!
//! Hardware work (writing serial bytes, copying through the direct map,
//! installing a tree, the jump back to usermode) is handed back as
//! `Effect` values and a `ResumeDecision`; the embedding program
//! performs them.

use vstd::prelude::*;
use vstd::pervasive::VecAdditionalExecFns;
use vstd::slice::slice_to_vec;
use crate::executor::{KernelTask, Task, WakerData};
use crate::interface::{Error, Syscall, SyscallReturn, spec_return_tag, spec_return_payload};
use crate::net::socket::{ReadPoll, SocketTable};
use crate::per_cpu::PerCpu;
use crate::pmm::FrameAllocator;
use crate::process::{DispatchOutcome, Process, ProcessDisposition, ProcessState, ProcessTable};
use crate::process::map::{LoadAction, elf_entry, map_elf_into_address_space, seg_pages, spec_load_pages, spec_rw_pages, spec_seg_ok};
use crate::process::map::{elf_entry_of, elf_segments_of};
use crate::x86::context::{Context, InterruptFrame};
use crate::x86::interrupts::{HandlerRoute, route};
use crate::x86::page::{AddressSpace, PageTable, new_tree};

verus! {

/// One action the embedding program performs on the kernel's behalf.
pub enum Effect {
    /// Write bytes to the serial collaborator.
    SerialWrite(Vec<u8>),
    /// Perform the image copies of a fresh process load.
    Load(Vec<LoadAction>),
    /// Copy bytes into a process's address space at a user address.
    CopyToUser { pid: u64, base: u64, bytes: Vec<u8> },
    /// Write delivered wake task ids into a process's tasks-to-wake
    /// buffer at a user address.
    DeliverWakes { pid: u64, base: u64, ids: Vec<u64> },
    /// Print a backtrace of what runs on a CPU.
    Backtrace { cpu: usize },
    /// Broadcast the panic vector: every other CPU halts.
    BroadcastPanic,
}

/// What the CPU does after the handler returns.
pub enum ResumeDecision {
    /// Reinstall the tree and resume the interrupted process.
    Resume { root_frame: u64 },
    /// Jump to another process.
    Switch(DispatchOutcome),
    /// Nothing to run: idle until the next interrupt.
    Idle,
    /// Halt this CPU with interrupts disabled.
    Halt,
    /// The interrupt came from kernel context: plain return.
    KernelReturn,
}

/// The task ids among `woken` that route to CPU `c`, in list order.
pub open spec fn wakes_for(woken: Seq<WakerData>, c: int) -> Seq<u64>
    decreases woken.len(),
{
    if woken.len() == 0 {
        Seq::<u64>::empty()
    } else {
        let rest = wakes_for(woken.drop_last(), c);
        if woken.last().cpu == c {
            rest.push(woken.last().id)
        } else {
            rest
        }
    }
}

/// Extending the routed prefix by one waker appends its id to exactly
/// its own CPU's list.
pub proof fn lemma_wakes_for_take_succ(woken: Seq<WakerData>, w: int)
    requires
        0 <= w < woken.len(),
    ensures
        forall|c: int| #[trigger] wakes_for(woken.take(w + 1), c)
            == (if woken[w].cpu == c {
                wakes_for(woken.take(w), c).push(woken[w].id)
            } else {
                wakes_for(woken.take(w), c)
            }),
{
    assert forall|c: int| #[trigger] wakes_for(woken.take(w + 1), c)
        == (if woken[w].cpu == c {
            wakes_for(woken.take(w), c).push(woken[w].id)
        } else {
            wakes_for(woken.take(w), c)
        }) by {
        assert(woken.take(w + 1).last() == woken[w]);
        assert(woken.take(w + 1).drop_last() =~= woken.take(w));
    }
}

/// The step one poll of a task takes, relating the kernel components
/// before the poll (with the task already taken off the table, its
/// remaining entries `rest`) to the components after it.  `SleepWake`
/// completes past its deadline (scheduling the wakeup) or re-arms the
/// timer at it; `SocketReadWake` completes on a waiting datagram
/// (copying its prefix to a still-live reader and scheduling the
/// wakeup), parks on an empty socket, or resolves against a closed one;
/// `RemoveProcess` retires the record and frees its tree.
pub open spec fn spec_poll_step(
    pre_procs: ProcessTable,
    post_procs: ProcessTable,
    pre_sockets: SocketTable,
    post_sockets: SocketTable,
    pre_frames: FrameAllocator,
    post_frames: FrameAllocator,
    pre_timer: crate::timer::Timer,
    post_timer: crate::timer::Timer,
    rest: Seq<Task>,
    post_tasks: Seq<Task>,
    pre_eff: Seq<Effect>,
    post_eff: Seq<Effect>,
    t: Task,
    cpu: int,
) -> bool {
    match t.kind {
        KernelTask::SleepWake { until, pid, task_id } => {
            &&& post_sockets == pre_sockets
            &&& post_frames == pre_frames
            &&& post_eff == pre_eff
            &&& (pre_timer.ticks > until ==> {
                &&& crate::process::spec_wakeup(pre_procs, post_procs, pid, task_id)
                &&& post_tasks == rest
                &&& post_timer == pre_timer
            })
            &&& (pre_timer.ticks <= until && pre_timer.next_seq < u64::MAX ==> {
                &&& post_procs == pre_procs
                &&& post_tasks == rest.push(t)
                &&& post_timer.ticks == pre_timer.ticks
                &&& post_timer.next_seq == pre_timer.next_seq + 1
                &&& post_timer.events@ == pre_timer.events@.insert(
                        crate::timer::insert_pos(pre_timer.events@, until),
                        crate::timer::TimerEvent {
                            time: until,
                            seq: pre_timer.next_seq,
                            waker: WakerData { cpu: cpu as usize, id: t.id },
                        },
                    )
            })
        },
        KernelTask::SocketReadWake { socket, pid, task_id, buf } => {
            &&& post_frames == pre_frames
            &&& post_timer == pre_timer
            &&& ((exists|j: int| 0 <= j < pre_sockets.sockets@.len()
                    && (#[trigger] pre_sockets.sockets@[j]).id == socket
                    && crate::net::socket::socket_data(pre_sockets.sockets@[j]).len() > 0)
                ==> {
                &&& crate::process::spec_wakeup(pre_procs, post_procs, pid, task_id)
                &&& post_tasks == rest
                &&& exists|j: int| {
                    &&& 0 <= j < pre_sockets.sockets@.len()
                    &&& (#[trigger] pre_sockets.sockets@[j]).id == socket
                    &&& crate::net::socket::socket_data(post_sockets.sockets@[j])
                            == crate::net::socket::socket_data(
                                pre_sockets.sockets@[j]).drop_first()
                    &&& ((exists|i: int| 0 <= i < pre_procs.procs@.len()
                            && (#[trigger] pre_procs.procs@[i]).pid == pid) ==> {
                        &&& post_eff.len() == pre_eff.len() + 1
                        &&& (post_eff.last() matches Effect::CopyToUser {
                                pid: to, base, bytes
                            } && to == pid && base == buf.base
                                && bytes@ == crate::net::socket::socket_data(
                                        pre_sockets.sockets@[j])[0]
                                    .take(vstd::math::min(
                                        crate::net::socket::socket_data(
                                            pre_sockets.sockets@[j])[0].len() as int,
                                        buf.len as int,
                                    )))
                    })
                    &&& ((forall|i: int| 0 <= i < pre_procs.procs@.len()
                            ==> (#[trigger] pre_procs.procs@[i]).pid != pid)
                        ==> post_eff == pre_eff)
                }
            })
            &&& ((exists|j: int| 0 <= j < pre_sockets.sockets@.len()
                    && (#[trigger] pre_sockets.sockets@[j]).id == socket
                    && crate::net::socket::socket_data(pre_sockets.sockets@[j]).len() == 0)
                ==> {
                &&& post_procs == pre_procs
                &&& post_eff == pre_eff
                &&& post_tasks == rest.push(t)
            })
            &&& ((forall|j: int| 0 <= j < pre_sockets.sockets@.len()
                    ==> (#[trigger] pre_sockets.sockets@[j]).id != socket)
                ==> {
                &&& crate::process::spec_wakeup(pre_procs, post_procs, pid, task_id)
                &&& post_sockets.sockets@ == pre_sockets.sockets@
                &&& post_eff == pre_eff
                &&& post_tasks == rest
            })
        },
        KernelTask::RemoveProcess { pid } => {
            &&& post_sockets == pre_sockets
            &&& post_timer == pre_timer
            &&& post_eff == pre_eff
            &&& post_tasks == rest
            &&& crate::process::spec_removed(pre_procs, post_procs,
                    pre_frames.table@, post_frames.table@, pid)
        },
    }
}

/// The whole kernel state: the per-CPU table, the frame allocator, the
/// process and socket tables, the shared kernel root, and the boot
/// module image.
pub struct Kernel {
    pub cpus: Vec<PerCpu>,
    pub frames: FrameAllocator,
    pub procs: ProcessTable,
    pub sockets: SocketTable,
    pub kernel_root: PageTable,
    pub image: Vec<u8>,
    pub image_base_phys: u64,
}

impl Kernel {
    pub open spec fn wf(self) -> bool {
        &&& self.frames.wf()
        &&& self.procs.wf()
        &&& forall|i: int| 0 <= i < self.procs.procs@.len()
                ==> (#[trigger] self.procs.procs@[i]).wf()
        &&& self.sockets.wf()
        &&& self.kernel_root.wf()
        &&& forall|i: int| 0 <= i < self.cpus@.len() ==> (#[trigger] self.cpus@[i]).wf()
    }

    /// Assemble a kernel at boot: the frame table from the memory map,
    /// one per-CPU block per reported CPU, empty process and socket
    /// tables, and the boot module image.
    pub fn new(
        mmap_entries: &Vec<crate::limine::LimineMmapEntry>,
        cpus: Vec<PerCpu>,
        kernel_root: PageTable,
        image: Vec<u8>,
        image_base_phys: u64,
    ) -> (r: Kernel)
        requires
            forall|k: int| 0 <= k < mmap_entries@.len()
                ==> (#[trigger] mmap_entries@[k]).base + mmap_entries@[k].len
                    <= crate::pmm::MAX_PHYS_BYTES,
            forall|i: int| 0 <= i < cpus@.len() ==> (#[trigger] cpus@[i]).wf(),
            kernel_root.wf(),
        ensures
            r.wf(),
            r.procs.procs@ == Seq::<Process>::empty(),
            r.procs.runnable@ == Seq::<u64>::empty(),
            r.sockets.sockets@ == Seq::<crate::net::socket::Socket>::empty(),
            r.frames.table@.len() == crate::pmm::page_count_of(mmap_entries@),
            forall|p: int| 0 <= p < r.frames.table@.len()
                ==> r.frames.table@[p] == crate::pmm::page_info_at(mmap_entries@, p),
            r.cpus@ == cpus@,
    {
        Kernel {
            cpus,
            frames: FrameAllocator::init(mmap_entries),
            procs: ProcessTable::new(),
            sockets: SocketTable::new(),
            kernel_root,
            image,
            image_base_phys,
        }
    }

    /// Create a new process from the boot module image with entry
    /// argument `arg`, insert it in the table and queue it to run.
    /// Returns its pid, or `None` where the image does not parse or
    /// memory runs out (any partially built tree is returned to the
    /// allocator, and the tables are left as they were).
    pub fn spawn(&mut self, arg: u64, effects: &mut Vec<Effect>) -> (r: Option<u64>)
        requires
            old(self).wf(),
        ensures
            final(self).wf(),
            final(self).cpus@ == old(self).cpus@,
            final(self).sockets == old(self).sockets,
            match r {
                Some(pid) => {
                    &&& pid == old(self).procs.next_pid
                    &&& final(self).procs.next_pid == old(self).procs.next_pid + 1
                    &&& final(self).procs.procs@.len() == old(self).procs.procs@.len() + 1
                    &&& final(self).procs.procs@.last().pid == pid
                    &&& final(self).procs.procs@.last().state == ProcessState::Running
                    &&& final(self).procs.procs@.last().context.frame.rdi == arg
                    &&& Some(final(self).procs.procs@.last().context.frame.ip)
                            == crate::process::map::elf_entry_of(old(self).image@)
                    &&& final(self).procs.procs@.last().wake_queue@ == Seq::<u64>::empty()
                    &&& (forall|k: int| 0 <= k < old(self).procs.procs@.len()
                            ==> final(self).procs.procs@[k] == old(self).procs.procs@[k])
                    &&& (old(self).procs.runnable@.contains(pid)
                            ==> final(self).procs.runnable@ == old(self).procs.runnable@)
                    &&& (!old(self).procs.runnable@.contains(pid)
                            ==> final(self).procs.runnable@
                                == old(self).procs.runnable@.push(pid))
                    &&& final(effects)@.len() == old(effects)@.len() + 1
                    &&& final(effects)@.last() is Load
                    // the built address space and the copy actions follow
                    // the image's program headers
                    &&& (elf_segments_of(old(self).image@) matches Some(segs) ==> {
                        let vm = final(self).procs.procs@.last().vm;
                        &&& (final(effects)@.last() matches Effect::Load(acts)
                                && acts@.len() == spec_rw_pages(segs))
                        &&& (forall|k: int, pg: int|
                                #![trigger crate::x86::page::spec_translate(vm,
                                    ((segs[k].p_vaddr & 0xffff_ffff_ffff_f000u64)
                                        + pg * 0x1000) as u64)]
                                0 <= k < segs.len()
                                    && segs[k].p_type == crate::process::map::PT_LOAD
                                    && 0 <= pg < seg_pages(segs[k])
                            ==> (crate::x86::page::spec_translate(vm,
                                    ((segs[k].p_vaddr & 0xffff_ffff_ffff_f000u64)
                                        + pg * 0x1000) as u64)
                                matches Some((p, l)) && l == 1))
                        &&& (forall|st: int| 0 <= st < 4
                            ==> ((#[trigger] crate::x86::page::spec_translate(vm,
                                    (crate::x86::USER_STACK_BASE + st * 0x1000) as u64))
                                matches Some((p, l)) && l == 1))
                    })
                },
                None => {
                    &&& final(self).procs.procs@ == old(self).procs.procs@
                    &&& final(self).procs.runnable@ == old(self).procs.runnable@
                    &&& final(self).procs.next_pid == old(self).procs.next_pid
                },
            },
            // success is owed for a loadable image with enough memory
            ({
                &&& old(self).procs.next_pid < u64::MAX
                &&& (elf_entry_of(old(self).image@) matches Some(e) && e != 0)
                &&& (elf_segments_of(old(self).image@) matches Some(segs)
                    && (forall|k: int| 0 <= k < segs.len()
                        ==> spec_seg_ok(#[trigger] segs[k]))
                    && crate::pmm::count_tag(old(self).frames.table@,
                            crate::pmm::PageInfo::Free)
                        >= 4 * spec_load_pages(segs) + 17)
                &&& old(self).image_base_phys <= 0x0000_1000_0000_0000
            }) ==> r is Some,
    {
        let ghost owed = old(self).procs.next_pid < u64::MAX
            && (elf_entry_of(old(self).image@) matches Some(e) && e != 0)
            && (elf_segments_of(old(self).image@) matches Some(segs)
                && (forall|k: int| 0 <= k < segs.len()
                    ==> spec_seg_ok(#[trigger] segs[k]))
                && crate::pmm::count_tag(old(self).frames.table@,
                        crate::pmm::PageInfo::Free)
                    >= 4 * spec_load_pages(segs) + 17)
            && old(self).image_base_phys <= 0x0000_1000_0000_0000;
        if self.procs.next_pid == u64::MAX {
            return None;
        }
        let entry = match elf_entry(&self.image) {
            Some(e) => e,
            None => { return None; }
        };
        if entry == 0 {
            return None;
        }
        let ghost table0 = self.frames.table@;
        let mut space = match new_tree(&mut self.frames, &self.kernel_root) {
            Some(s) => s,
            None => {
                proof {
                    crate::pmm::lemma_count_tag_none(self.frames.table@,
                        crate::pmm::PageInfo::Free);
                    if owed {
                        crate::process::map::lemma_load_pages_nonneg(
                            elf_segments_of(old(self).image@).unwrap());
                        assert(false);
                    }
                }
                return None;
            }
        };
        proof {
            crate::pmm::lemma_count_tag_update(
                table0,
                space.root_frame as int / crate::pmm::PAGE_SIZE as int,
                crate::pmm::PageInfo::InUse { refcount: 1u16 },
                crate::pmm::PageInfo::Free,
            );
            assert forall|va: u64| crate::x86::page::spec_user_addr(va)
                implies match #[trigger] crate::x86::page::spec_translate(space, va) {
                    Some((p, l)) => l == 1,
                    None => true,
                } by {}
        }
        let actions = match map_elf_into_address_space(
            &self.image,
            self.image_base_phys,
            &mut space,
            &mut self.frames,
        ) {
            Some(a) => a,
            None => {
                proof {
                    if owed {
                        assert(false);
                    }
                }
                crate::x86::page::free_tree(space, &mut self.frames);
                return None;
            }
        };
        effects.push(Effect::Load(actions));
        let mut context = Context::new_user(entry);
        context.set_arg1(arg);
        let pid = self.procs.next_pid;
        self.procs.next_pid = pid + 1;
        let process = Process {
            context,
            vm: space,
            state: ProcessState::Running,
            exit_code: None,
            pid,
            sched_in: 0,
            on_cpu: None,
            wake_queue: Vec::new(),
        };
        let ghost before = self.procs.procs@;
        self.procs.procs.push(process);
        proof {
            assert forall|a: int, b: int| 0 <= a < b < self.procs.procs@.len()
                implies (#[trigger] self.procs.procs@[a]).pid
                    != (#[trigger] self.procs.procs@[b]).pid by {
                if b == self.procs.procs@.len() - 1 {
                    assert(self.procs.procs@[a] == before[a]);
                }
            }
        }
        self.procs.schedule_pid(pid);
        Some(pid)
    }

    /// Route a list of wakes: each waker's task id is enqueued on the
    /// executor of the CPU that owns the task, in list order; a waker
    /// naming a CPU outside the table is dropped.
    pub fn route_wakes(&mut self, woken: &Vec<WakerData>)
        requires
            old(self).wf(),
        ensures
            final(self).wf(),
            final(self).cpus@.len() == old(self).cpus@.len(),
            final(self).frames == old(self).frames,
            final(self).procs == old(self).procs,
            final(self).sockets == old(self).sockets,
            forall|c: int| 0 <= c < old(self).cpus@.len() ==> {
                &&& (#[trigger] final(self).cpus@[c]).executor.tasks_to_poll@
                        == old(self).cpus@[c].executor.tasks_to_poll@
                            + wakes_for(woken@, c)
                &&& final(self).cpus@[c].executor.tasks@
                        == old(self).cpus@[c].executor.tasks@
                &&& final(self).cpus@[c].executor.next_id
                        == old(self).cpus@[c].executor.next_id
                &&& final(self).cpus@[c].timer == old(self).cpus@[c].timer
                &&& final(self).cpus@[c].running == old(self).cpus@[c].running
                &&& final(self).cpus@[c].arch == old(self).cpus@[c].arch
                &&& final(self).cpus@[c].ipi_queue@ == old(self).cpus@[c].ipi_queue@
            },
            woken@.len() == 0 ==> final(self).cpus@ == old(self).cpus@,
    {
        let ghost orig = self.cpus@;
        let mut w: usize = 0;
        proof {
            assert forall|c: int| 0 <= c < orig.len()
                implies wakes_for(woken@.take(0), c) =~= Seq::<u64>::empty() by {}
        }
        while w < woken.len()
            invariant
                self.wf(),
                w <= woken@.len(),
                self.cpus@.len() == orig.len(),
                orig == old(self).cpus@,
                woken@.len() == 0 ==> self.cpus@ == orig,
                self.frames == old(self).frames,
                self.procs == old(self).procs,
                self.sockets == old(self).sockets,
                self.kernel_root.wf(),
                forall|c: int| 0 <= c < orig.len() ==> {
                    &&& (#[trigger] self.cpus@[c]).executor.tasks_to_poll@
                            == orig[c].executor.tasks_to_poll@
                                + wakes_for(woken@.take(w as int), c)
                    &&& self.cpus@[c].executor.tasks@ == orig[c].executor.tasks@
                    &&& self.cpus@[c].executor.next_id == orig[c].executor.next_id
                    &&& self.cpus@[c].timer == orig[c].timer
                    &&& self.cpus@[c].running == orig[c].running
                    &&& self.cpus@[c].arch == orig[c].arch
                    &&& self.cpus@[c].ipi_queue@ == orig[c].ipi_queue@
                },
            decreases woken@.len() - w,
        {
            let target = woken[w];
            proof {
                lemma_wakes_for_take_succ(woken@, w as int);
            }
            if target.cpu < self.cpus.len() {
                let ghost before = self.cpus@;
                let mut pc = PerCpu::placeholder();
                self.cpus.set_and_swap(target.cpu, &mut pc);
                pc.executor.enqueue_poll(target.id);
                self.cpus.set_and_swap(target.cpu, &mut pc);
                proof {
                    assert forall|c: int| 0 <= c < orig.len()
                        implies (#[trigger] self.cpus@[c]).executor.tasks_to_poll@
                            == orig[c].executor.tasks_to_poll@
                                + wakes_for(woken@.take(w as int + 1), c) by {
                        if c == target.cpu as int {
                            assert(self.cpus@[c].executor.tasks_to_poll@
                                == before[c].executor.tasks_to_poll@.push(target.id));
                            assert(orig[c].executor.tasks_to_poll@
                                + wakes_for(woken@.take(w as int), c).push(target.id)
                                =~= orig[c].executor.tasks_to_poll@
                                    + wakes_for(woken@.take(w as int + 1), c));
                        } else {
                            assert(self.cpus@[c] == before[c]);
                            assert(wakes_for(woken@.take(w as int + 1), c)
                                == wakes_for(woken@.take(w as int), c));
                        }
                    }
                    assert forall|i: int| 0 <= i < self.cpus@.len()
                        implies (#[trigger] self.cpus@[i]).wf() by {
                        if i != target.cpu as int {
                            assert(self.cpus@[i] == before[i]);
                        }
                    }
                }
            } else {
                proof {
                    assert forall|c: int| 0 <= c < orig.len()
                        implies wakes_for(woken@.take(w as int + 1), c)
                            == wakes_for(woken@.take(w as int), c) by {}
                }
            }
            w = w + 1;
        }
        proof {
            assert(woken@.take(woken@.len() as int) =~= woken@);
        }
    }

    /// Drain this CPU's to-poll queue, polling each task once: sleeps
    /// complete or re-arm the timer, socket reads complete (copying the
    /// datagram bytes to the reader), park, or resolve to nothing, and
    /// process removals free the record and its tree.  Completed tasks
    /// are dropped.
    pub fn do_work(&mut self, cpu: usize, effects: &mut Vec<Effect>)
        requires
            old(self).wf(),
            cpu < old(self).cpus@.len(),
        ensures
            final(self).wf(),
            final(self).cpus@.len() == old(self).cpus@.len(),
            final(self).cpus@[cpu as int].executor.tasks_to_poll@.len() == 0,
            forall|c: int| 0 <= c < old(self).cpus@.len() && c != cpu
                ==> #[trigger] final(self).cpus@[c] == old(self).cpus@[c],
            final(self).cpus@[cpu as int].timer.ticks
                == old(self).cpus@[cpu as int].timer.ticks,
            final(self).cpus@[cpu as int].running
                == old(self).cpus@[cpu as int].running,
            final(effects)@.len() >= old(effects)@.len(),
            forall|k: int| 0 <= k < old(effects)@.len()
                ==> #[trigger] final(effects)@[k] == old(effects)@[k],
            old(self).cpus@[cpu as int].executor.tasks_to_poll@.len() == 0 ==> {
                &&& final(self).cpus@[cpu as int].executor.tasks@
                        == old(self).cpus@[cpu as int].executor.tasks@
                &&& final(self).cpus@[cpu as int].executor.next_id
                        == old(self).cpus@[cpu as int].executor.next_id
                &&& final(self).cpus@[cpu as int].timer
                        == old(self).cpus@[cpu as int].timer
                &&& final(self).cpus@[cpu as int].ipi_queue@
                        == old(self).cpus@[cpu as int].ipi_queue@
                &&& final(self).procs == old(self).procs
                &&& final(self).sockets == old(self).sockets
                &&& final(self).frames == old(self).frames
                &&& final(effects)@ == old(effects)@
            },
            // one queued task takes exactly one step of its state machine
            ({
                let b0 = old(self).cpus@[cpu as int];
                b0.executor.tasks_to_poll@.len() == 1 ==> {
                    let qid = b0.executor.tasks_to_poll@[0];
                    &&& ((forall|k: int| 0 <= k < b0.executor.tasks@.len()
                            ==> (#[trigger] b0.executor.tasks@[k]).id != qid) ==> {
                        &&& final(self).cpus@[cpu as int].executor.tasks@
                                == b0.executor.tasks@
                        &&& final(self).cpus@[cpu as int].timer == b0.timer
                        &&& final(self).procs == old(self).procs
                        &&& final(self).sockets == old(self).sockets
                        &&& final(self).frames == old(self).frames
                        &&& final(effects)@ == old(effects)@
                    })
                    &&& (forall|k: int| 0 <= k < b0.executor.tasks@.len()
                            && (#[trigger] b0.executor.tasks@[k]).id == qid
                        ==> spec_poll_step(
                            old(self).procs, final(self).procs,
                            old(self).sockets, final(self).sockets,
                            old(self).frames, final(self).frames,
                            b0.timer, final(self).cpus@[cpu as int].timer,
                            b0.executor.tasks@.remove(k),
                            final(self).cpus@[cpu as int].executor.tasks@,
                            old(effects)@, final(effects)@,
                            b0.executor.tasks@[k], cpu as int))
                }
            }),
    {
        let ghost cpus0 = self.cpus@;
        let mut pc = PerCpu::placeholder();
        self.cpus.set_and_swap(cpu, &mut pc);
        let ghost pc0 = pc;
        loop
            invariant
                self.frames.wf(),
                self.procs.wf(),
                forall|i: int| 0 <= i < self.procs.procs@.len()
                    ==> (#[trigger] self.procs.procs@[i]).wf(),
                self.sockets.wf(),
                self.kernel_root.wf(),
                pc.wf(),
                cpu < self.cpus@.len(),
                self.cpus@.len() == old(self).cpus@.len(),
                forall|i: int| 0 <= i < self.cpus@.len()
                    ==> (#[trigger] self.cpus@[i]).wf(),
                forall|c: int| 0 <= c < cpus0.len() && c != cpu
                    ==> #[trigger] self.cpus@[c] == cpus0[c],
                cpus0 == old(self).cpus@,
                pc0 == cpus0[cpu as int],
                pc.timer.ticks == pc0.timer.ticks,
                pc.running == pc0.running,
                pc.arch == pc0.arch,
                effects@.len() >= old(effects)@.len(),
                forall|k: int| 0 <= k < old(effects)@.len()
                    ==> #[trigger] effects@[k] == old(effects)@[k],
                pc0.executor.tasks_to_poll@.len() == 0 ==> {
                    &&& pc.executor.tasks@ == pc0.executor.tasks@
                    &&& pc.executor.tasks_to_poll@ == pc0.executor.tasks_to_poll@
                    &&& pc.executor.next_id == pc0.executor.next_id
                    &&& pc.timer == pc0.timer
                    &&& pc.ipi_queue@ == pc0.ipi_queue@
                    &&& self.procs == old(self).procs
                    &&& self.sockets == old(self).sockets
                    &&& self.frames == old(self).frames
                    &&& effects@ == old(effects)@
                },
                ({
                    pc0.executor.tasks_to_poll@.len() == 1 ==> {
                        let qid = pc0.executor.tasks_to_poll@[0];
                        ||| {
                            &&& pc.executor.tasks_to_poll@
                                    == pc0.executor.tasks_to_poll@
                            &&& pc.executor.tasks@ == pc0.executor.tasks@
                            &&& pc.timer == pc0.timer
                            &&& self.procs == old(self).procs
                            &&& self.sockets == old(self).sockets
                            &&& self.frames == old(self).frames
                            &&& effects@ == old(effects)@
                        }
                        ||| {
                            &&& pc.executor.tasks_to_poll@.len() == 0
                            &&& ((forall|k: int| 0 <= k < pc0.executor.tasks@.len()
                                    ==> (#[trigger] pc0.executor.tasks@[k]).id != qid)
                                ==> {
                                &&& pc.executor.tasks@ == pc0.executor.tasks@
                                &&& pc.timer == pc0.timer
                                &&& self.procs == old(self).procs
                                &&& self.sockets == old(self).sockets
                                &&& self.frames == old(self).frames
                                &&& effects@ == old(effects)@
                            })
                            &&& (forall|k: int| 0 <= k < pc0.executor.tasks@.len()
                                    && (#[trigger] pc0.executor.tasks@[k]).id == qid
                                ==> spec_poll_step(
                                    old(self).procs, self.procs,
                                    old(self).sockets, self.sockets,
                                    old(self).frames, self.frames,
                                    pc0.timer, pc.timer,
                                    pc0.executor.tasks@.remove(k),
                                    pc.executor.tasks@,
                                    old(effects)@, effects@,
                                    pc0.executor.tasks@[k], cpu as int))
                        }
                    }
                }),
            ensures
                pc.executor.tasks_to_poll@.len() == 0,
            decreases pc.executor.tasks_to_poll@.len(),
        {
            let id = match pc.executor.pop_to_poll() {
                Some(id) => id,
                None => { break; }
            };
            let ti = match pc.executor.find_task(id) {
                Some(i) => i,
                None => { continue; }
            };
            let task = pc.executor.remove_task(ti);
            match task.kind {
                KernelTask::SleepWake { until, pid, task_id } => {
                    if pc.timer.ticks() > until {
                        self.procs.schedule_wakeup(pid, task_id);
                    } else if pc.timer.next_seq < u64::MAX {
                        pc.timer.raw_insert(until, WakerData { cpu, id });
                        pc.executor.reinsert_task(task);
                    } else {
                        self.procs.schedule_wakeup(pid, task_id);
                    }
                }
                KernelTask::SocketReadWake { socket, pid, task_id, buf } => {
                    match self.sockets.read(socket, buf.len, WakerData { cpu, id }) {
                        ReadPoll::Ready(data) => {
                            match self.procs.find(pid) {
                                Some(_) => {
                                    effects.push(Effect::CopyToUser {
                                        pid,
                                        base: buf.base,
                                        bytes: data,
                                    });
                                }
                                None => {}
                            }
                            self.procs.schedule_wakeup(pid, task_id);
                        }
                        ReadPoll::Parked => {
                            pc.executor.reinsert_task(task);
                        }
                        ReadPoll::NoSocket => {
                            self.procs.schedule_wakeup(pid, task_id);
                        }
                    }
                }
                KernelTask::RemoveProcess { pid } => {
                    self.procs.remove(pid, &mut self.frames);
                }
            }
        }
        self.cpus.set_and_swap(cpu, &mut pc);
        proof {
            assert forall|i: int| 0 <= i < self.cpus@.len()
                implies (#[trigger] self.cpus@[i]).wf() by {
                if i != cpu as int {
                    assert(self.cpus@[i].wf());
                }
            }
        }
    }

    /// A timer interrupt on `cpu`: advance its wheel one tick, route
    /// every fired waker back to its owning CPU's executor (a waker fires
    /// exactly when its deadline has passed), then drain this CPU's
    /// to-poll queue.  The wheel loses exactly its due prefix, and each
    /// fired waker's id lands on its own CPU's queue; where this CPU had
    /// nothing queued and nothing due fires on it, the drain moves
    /// nothing else.
    pub fn timer_tick(&mut self, cpu: usize, effects: &mut Vec<Effect>)
        requires
            old(self).wf(),
            cpu < old(self).cpus@.len(),
        ensures
            final(self).wf(),
            final(self).cpus@.len() == old(self).cpus@.len(),
            old(self).cpus@[cpu as int].timer.ticks < u64::MAX
                ==> final(self).cpus@[cpu as int].timer.ticks
                    == old(self).cpus@[cpu as int].timer.ticks + 1,
            old(self).cpus@[cpu as int].timer.ticks == u64::MAX
                ==> final(self).cpus@[cpu as int].timer.ticks == u64::MAX,
            final(self).cpus@[cpu as int].executor.tasks_to_poll@.len() == 0,
            final(self).cpus@[cpu as int].running == old(self).cpus@[cpu as int].running,
            forall|c: int| 0 <= c < old(self).cpus@.len() && c != cpu
                ==> (#[trigger] final(self).cpus@[c]).timer == old(self).cpus@[c].timer,
            ({
                let t0 = old(self).cpus@[cpu as int].timer;
                t0.ticks < u64::MAX ==> exists|cut: int|
                    #![trigger t0.events@.take(cut)]
                {
                    let fired = t0.events@.take(cut)
                        .map_values(|e: crate::timer::TimerEvent| e.waker);
                    &&& 0 <= cut <= t0.events@.len()
                    &&& (forall|k: int| 0 <= k < cut
                            ==> (#[trigger] t0.events@[k]).time <= t0.ticks + 1)
                    &&& (forall|k: int| cut <= k < t0.events@.len()
                            ==> (#[trigger] t0.events@[k]).time > t0.ticks + 1)
                    &&& (forall|c: int| 0 <= c < old(self).cpus@.len() && c != cpu
                            ==> (#[trigger] final(self).cpus@[c]).executor.tasks_to_poll@
                                == old(self).cpus@[c].executor.tasks_to_poll@
                                    + wakes_for(fired, c))
                    &&& (old(self).cpus@[cpu as int].executor.tasks_to_poll@.len() == 0
                            && wakes_for(fired, cpu as int) == Seq::<u64>::empty() ==> {
                        &&& final(self).cpus@[cpu as int].timer.events@
                                == t0.events@.skip(cut)
                        &&& final(self).cpus@[cpu as int].timer.next_seq == t0.next_seq
                        &&& final(self).cpus@[cpu as int].executor.tasks@
                                == old(self).cpus@[cpu as int].executor.tasks@
                        &&& final(self).cpus@[cpu as int].executor.next_id
                                == old(self).cpus@[cpu as int].executor.next_id
                        &&& final(self).procs == old(self).procs
                        &&& final(self).sockets == old(self).sockets
                        &&& final(self).frames == old(self).frames
                        &&& final(effects)@ == old(effects)@
                    })
                }
            }),
            // nothing queued and nothing due: only the clock moves
            ({
                let t0 = old(self).cpus@[cpu as int].timer;
                (old(self).cpus@[cpu as int].executor.tasks_to_poll@.len() == 0
                    && t0.ticks < u64::MAX
                    && (forall|k: int| 0 <= k < t0.events@.len()
                            ==> (#[trigger] t0.events@[k]).time > t0.ticks + 1)) ==> {
                    &&& final(self).procs == old(self).procs
                    &&& final(self).sockets == old(self).sockets
                    &&& final(self).frames == old(self).frames
                    &&& final(effects)@ == old(effects)@
                    &&& final(self).cpus@[cpu as int].timer.events@ == t0.events@
                    &&& final(self).cpus@[cpu as int].timer.next_seq == t0.next_seq
                    &&& final(self).cpus@[cpu as int].executor.tasks@
                            == old(self).cpus@[cpu as int].executor.tasks@
                    &&& final(self).cpus@[cpu as int].executor.next_id
                            == old(self).cpus@[cpu as int].executor.next_id
                    &&& (forall|c: int| 0 <= c < old(self).cpus@.len() && c != cpu
                            ==> #[trigger] final(self).cpus@[c]
                                == old(self).cpus@[c])
                }
            }),
    {
        let ghost t0 = self.cpus@[cpu as int].timer;
        let mut pc = PerCpu::placeholder();
        self.cpus.set_and_swap(cpu, &mut pc);
        let fired = if pc.timer.ticks < u64::MAX {
            pc.timer.tick()
        } else {
            Vec::new()
        };
        proof {
            if t0.ticks < u64::MAX
                && (forall|k: int| 0 <= k < t0.events@.len()
                        ==> (#[trigger] t0.events@[k]).time > t0.ticks + 1) {
                let cut = choose|cut: int| {
                    &&& 0 <= cut <= t0.events@.len()
                    &&& (forall|k: int| 0 <= k < cut
                            ==> (#[trigger] t0.events@[k]).time <= t0.ticks + 1)
                    &&& (forall|k: int| cut <= k < t0.events@.len()
                            ==> (#[trigger] t0.events@[k]).time > t0.ticks + 1)
                    &&& fired@ == t0.events@.take(cut)
                            .map_values(|e: crate::timer::TimerEvent| e.waker)
                    &&& pc.timer.events@ == t0.events@.skip(cut)
                };
                if cut > 0 {
                    assert(t0.events@[0].time <= t0.ticks + 1);
                    assert(false);
                }
                assert(t0.events@.take(0)
                    .map_values(|e: crate::timer::TimerEvent| e.waker)
                    =~= Seq::<WakerData>::empty());
                assert(fired@ =~= Seq::<WakerData>::empty());
                assert(t0.events@.skip(0) =~= t0.events@);
                assert forall|c: int| true
                    implies #[trigger] wakes_for(fired@, c) == Seq::<u64>::empty() by {}
            }
        }
        self.cpus.set_and_swap(cpu, &mut pc);
        proof {
            assert forall|i: int| 0 <= i < self.cpus@.len()
                implies (#[trigger] self.cpus@[i]).wf() by {
                if i != cpu as int {
                    assert(self.cpus@[i].wf());
                }
            }
        }
        self.route_wakes(&fired);
        self.do_work(cpu, effects);
    }

    /// Dispatch one syscall descriptor for the process running on `cpu`,
    /// then drain its pending wake ids into the caller's tasks-to-wake
    /// buffer (whose base and capacity the live frame names), and write
    /// the three-state result and the drained count into the frame.
    /// Returns the result.
    #[verifier::rlimit(100)]
    #[verifier::spinoff_prover]
    pub fn handle_syscall(
        &mut self,
        cpu: usize,
        frame: &mut InterruptFrame,
        call: &Syscall,
        effects: &mut Vec<Effect>,
    ) -> (r: SyscallReturn)
        requires
            old(self).wf(),
            cpu < old(self).cpus@.len(),
            old(self).cpus@[cpu as int].running is Some,
        ensures
            final(self).wf(),
            final(self).cpus@.len() == old(self).cpus@.len(),
            forall|c: int| 0 <= c < old(self).cpus@.len()
                ==> (#[trigger] final(self).cpus@[c]).timer == old(self).cpus@[c].timer,
            final(frame).rax == spec_return_tag(r),
            final(frame).rdi == spec_return_payload(r),
            *final(frame) == (InterruptFrame {
                rax: final(frame).rax,
                rdi: final(frame).rdi,
                rdx: final(frame).rdx,
                ..*old(frame)
            }),
            // the wake drain: up to the live frame's capacity of pending
            // ids leave the caller's queue, the count lands in the frame,
            // and the ids go out as a delivery action
            ({
                let pid = old(self).cpus@[cpu as int].running.unwrap();
                &&& (exists|i: int| 0 <= i < old(self).procs.procs@.len()
                        && (#[trigger] old(self).procs.procs@[i]).pid == pid)
                    ==> exists|i: int| {
                        &&& 0 <= i < old(self).procs.procs@.len()
                        &&& (#[trigger] old(self).procs.procs@[i]).pid == pid
                        &&& {
                            let q = old(self).procs.procs@[i].wake_queue@;
                            let n = vstd::math::min(q.len() as int, old(frame).rdx as int);
                            &&& final(frame).rdx == n
                            &&& final(self).procs.procs@[i].wake_queue@ == q.skip(n)
                            &&& (n > 0 ==> final(effects)@.len() > 0
                                && (final(effects)@.last() matches Effect::DeliverWakes {
                                        pid: dp, base, ids
                                    } && dp == pid && base == old(frame).rsi
                                        && ids@ == q.take(n)))
                            &&& (!(call is Exit) && !(call is Yield)
                                ==> final(self).procs.procs@[i].state
                                    == (if n > 0 && old(self).procs.procs@[i].state
                                            == ProcessState::Waiting {
                                        ProcessState::Running
                                    } else {
                                        old(self).procs.procs@[i].state
                                    }))
                        }
                    }
                &&& ((forall|i: int| 0 <= i < old(self).procs.procs@.len()
                        ==> (#[trigger] old(self).procs.procs@[i]).pid != pid)
                    ==> final(frame).rdx == 0)
            }),
            ({
                let pid = old(self).cpus@[cpu as int].running.unwrap();
                let sockets0 = old(self).sockets;
                let ex = old(self).cpus@[cpu as int].executor;
                match call {
                    Syscall::Print(s) => {
                        &&& r == SyscallReturn::Complete(0)
                        &&& final(effects)@.len() > old(effects)@.len()
                        &&& (final(effects)@[old(effects)@.len() as int]
                                matches Effect::SerialWrite(b) && b@ == s@)
                        &&& final(self).sockets == sockets0
                    },
                    Syscall::Exit(code) => {
                        &&& r == SyscallReturn::Complete(0)
                        &&& final(self).sockets == sockets0
                        &&& (exists|i: int| 0 <= i < old(self).procs.procs@.len()
                                && (#[trigger] old(self).procs.procs@[i]).pid == pid)
                            ==> exists|i: int| {
                                &&& 0 <= i < final(self).procs.procs@.len()
                                &&& (#[trigger] final(self).procs.procs@[i]).pid == pid
                                &&& final(self).procs.procs@[i].state == ProcessState::Exited
                                &&& final(self).procs.procs@[i].exit_code == Some(*code)
                            }
                    },
                    Syscall::Yield => {
                        &&& r == SyscallReturn::Complete(0)
                        &&& final(self).sockets == sockets0
                        &&& (exists|i: int| 0 <= i < old(self).procs.procs@.len()
                                && (#[trigger] old(self).procs.procs@[i]).pid == pid)
                            ==> exists|i: int| {
                                &&& 0 <= i < final(self).procs.procs@.len()
                                &&& (#[trigger] final(self).procs.procs@[i]).pid == pid
                                &&& final(self).procs.procs@[i].state
                                        == (if final(frame).rdx > 0 {
                                            ProcessState::Running
                                        } else {
                                            ProcessState::Waiting
                                        })
                            }
                    },
                    Syscall::Spawn(name, arg) => {
                        &&& (r matches SyscallReturn::Complete(p) ==> {
                            &&& p == old(self).procs.next_pid
                            &&& final(self).procs.procs@.len()
                                    == old(self).procs.procs@.len() + 1
                        })
                        &&& (!(r matches SyscallReturn::Complete(_))
                                ==> r == SyscallReturn::Error(Error::InvalidArgument))
                        &&& final(self).sockets == sockets0
                        // success owed as for `spawn` itself
                        &&& (({
                            &&& old(self).procs.next_pid < u64::MAX
                            &&& (elf_entry_of(old(self).image@) matches Some(e)
                                    && e != 0)
                            &&& (elf_segments_of(old(self).image@) matches Some(segs)
                                && (forall|k: int| 0 <= k < segs.len()
                                    ==> spec_seg_ok(#[trigger] segs[k]))
                                && crate::pmm::count_tag(old(self).frames.table@,
                                        crate::pmm::PageInfo::Free)
                                    >= 4 * spec_load_pages(segs) + 17)
                            &&& old(self).image_base_phys <= 0x0000_1000_0000_0000
                        }) ==> r matches SyscallReturn::Complete(_))
                    },
                    Syscall::DgSocket => {
                        &&& (sockets0.next_id < u64::MAX ==> {
                            &&& r == SyscallReturn::Complete(sockets0.next_id)
                            &&& final(self).sockets.sockets@.len()
                                    == sockets0.sockets@.len() + 1
                            &&& final(self).sockets.sockets@.last().id == sockets0.next_id
                        })
                        &&& (sockets0.next_id == u64::MAX
                                ==> r == SyscallReturn::Error(Error::InvalidArgument)
                                    && final(self).sockets == sockets0)
                    },
                    Syscall::DgWrite(id, bytes) => {
                        &&& ((exists|j: int| 0 <= j < sockets0.sockets@.len()
                                && (#[trigger] sockets0.sockets@[j]).id == id)
                            <==> r == SyscallReturn::Complete(bytes@.len() as u64))
                        &&& (r == SyscallReturn::Complete(bytes@.len() as u64)
                            ==> exists|j: int| {
                                &&& 0 <= j < sockets0.sockets@.len()
                                &&& (#[trigger] sockets0.sockets@[j]).id == id
                                &&& crate::net::socket::socket_data(
                                        final(self).sockets.sockets@[j])
                                    == crate::net::socket::socket_data(
                                        sockets0.sockets@[j]).push(bytes@)
                                &&& final(self).sockets.sockets@[j].futures@
                                        == Seq::<WakerData>::empty()
                            })
                        &&& (!(r == SyscallReturn::Complete(bytes@.len() as u64))
                                ==> r == SyscallReturn::Error(Error::NoSuchSocket)
                                    && final(self).sockets.sockets@ == sockets0.sockets@)
                    },
                    Syscall::DgRead(id, buf) => {
                        &&& ((forall|j: int| 0 <= j < sockets0.sockets@.len()
                                ==> (#[trigger] sockets0.sockets@[j]).id != id)
                            ==> r == SyscallReturn::Error(Error::NoSuchSocket)
                                && final(self).cpus@ == old(self).cpus@)
                        &&& ((exists|j: int| 0 <= j < sockets0.sockets@.len()
                                && (#[trigger] sockets0.sockets@[j]).id == id)
                                && ex.next_id < u64::MAX ==> {
                            &&& r == SyscallReturn::NotComplete
                            &&& final(self).cpus@[cpu as int].executor.tasks@
                                    == ex.tasks@.push(Task {
                                        id: ex.next_id,
                                        kind: KernelTask::SocketReadWake {
                                            socket: *id,
                                            pid,
                                            task_id: old(frame).rdi,
                                            buf: *buf,
                                        },
                                    })
                            &&& final(self).cpus@[cpu as int].executor.tasks_to_poll@
                                    == ex.tasks_to_poll@.push(ex.next_id)
                        })
                        &&& ((exists|j: int| 0 <= j < sockets0.sockets@.len()
                                && (#[trigger] sockets0.sockets@[j]).id == id)
                                && ex.next_id == u64::MAX
                            ==> r == SyscallReturn::Error(Error::InvalidArgument))
                        &&& final(self).sockets.sockets@ == sockets0.sockets@
                    },
                    Syscall::Sleep(us) => {
                        &&& (ex.next_id < u64::MAX ==> {
                            let tk = old(self).cpus@[cpu as int].timer.ticks;
                            let until = if tk + *us / 1000 <= u64::MAX {
                                (tk + *us / 1000) as u64
                            } else {
                                u64::MAX
                            };
                            &&& r == SyscallReturn::NotComplete
                            &&& final(self).cpus@[cpu as int].executor.tasks@
                                    == ex.tasks@.push(Task {
                                        id: ex.next_id,
                                        kind: KernelTask::SleepWake {
                                            until,
                                            pid,
                                            task_id: old(frame).rdi,
                                        },
                                    })
                            &&& final(self).cpus@[cpu as int].executor.tasks_to_poll@
                                    == ex.tasks_to_poll@.push(ex.next_id)
                        })
                        &&& (ex.next_id == u64::MAX
                                ==> r == SyscallReturn::Error(Error::InvalidArgument))
                        &&& final(self).sockets == sockets0
                    },
                    Syscall::DgClose(id) => {
                        &&& ((exists|j: int| 0 <= j < sockets0.sockets@.len()
                                && (#[trigger] sockets0.sockets@[j]).id == id)
                            <==> r == SyscallReturn::Complete(0))
                        &&& (r == SyscallReturn::Complete(0)
                                ==> final(self).sockets.sockets@.len()
                                    == sockets0.sockets@.len() - 1)
                        &&& (!(r == SyscallReturn::Complete(0))
                                ==> r == SyscallReturn::Error(Error::NoSuchSocket)
                                    && final(self).sockets.sockets@ == sockets0.sockets@)
                    },
                    Syscall::Unknown => {
                        &&& r == SyscallReturn::Error(Error::InvalidSyscall)
                        &&& final(self).sockets == sockets0
                    },
                }
            }),
    {
        let pid = match self.cpus[cpu].running {
            Some(p) => p,
            None => {
                proof { assert(false); }
                0
            }
        };
        let task_id = frame.task_id();
        let (wake_base, cap) = frame.tasks_to_wake();
        let result = match call {
            Syscall::Print(s) => {
                effects.push(Effect::SerialWrite(slice_to_vec(s.as_slice())));
                SyscallReturn::Complete(0)
            }
            Syscall::Exit(code) => {
                self.procs.exit(pid, *code);
                SyscallReturn::Complete(0)
            }
            Syscall::Spawn(_name, arg) => {
                match self.spawn(*arg as u64, effects) {
                    Some(new_pid) => SyscallReturn::Complete(new_pid),
                    None => SyscallReturn::Error(Error::InvalidArgument),
                }
            }
            Syscall::DgSocket => {
                if self.sockets.next_id == u64::MAX {
                    SyscallReturn::Error(Error::InvalidArgument)
                } else {
                    SyscallReturn::Complete(self.sockets.create())
                }
            }
            Syscall::DgWrite(id, bytes) => {
                let blen = bytes.len();
                proof {
                    assert(bytes@.len() <= u64::MAX);
                }
                match self.sockets.write(*id, bytes.as_slice()) {
                    Some((count, woken)) => {
                        self.route_wakes(&woken);
                        SyscallReturn::Complete(count)
                    }
                    None => SyscallReturn::Error(Error::NoSuchSocket),
                }
            }
            Syscall::DgRead(id, buf) => {
                match self.sockets.find(*id) {
                    Some(_) => {
                        let mut pc = PerCpu::placeholder();
                        self.cpus.set_and_swap(cpu, &mut pc);
                        let result = if pc.executor.next_id < u64::MAX {
                            pc.executor.spawn(KernelTask::SocketReadWake {
                                socket: *id,
                                pid,
                                task_id,
                                buf: *buf,
                            });
                            SyscallReturn::NotComplete
                        } else {
                            SyscallReturn::Error(Error::InvalidArgument)
                        };
                        self.cpus.set_and_swap(cpu, &mut pc);
                        proof {
                            assert forall|i: int| 0 <= i < self.cpus@.len()
                                implies (#[trigger] self.cpus@[i]).wf() by {
                                if i != cpu as int {
                                    assert(self.cpus@[i].wf());
                                }
                            }
                        }
                        result
                    }
                    None => SyscallReturn::Error(Error::NoSuchSocket),
                }
            }
            Syscall::Sleep(us) => {
                let mut pc = PerCpu::placeholder();
                self.cpus.set_and_swap(cpu, &mut pc);
                let wait_ticks = crate::timer::ticks_for(*us);
                let until = if pc.timer.ticks <= u64::MAX - wait_ticks {
                    pc.timer.ticks + wait_ticks
                } else {
                    u64::MAX
                };
                let result = if pc.executor.next_id < u64::MAX {
                    pc.executor.spawn(KernelTask::SleepWake { until, pid, task_id });
                    SyscallReturn::NotComplete
                } else {
                    SyscallReturn::Error(Error::InvalidArgument)
                };
                self.cpus.set_and_swap(cpu, &mut pc);
                proof {
                    assert forall|i: int| 0 <= i < self.cpus@.len()
                        implies (#[trigger] self.cpus@[i]).wf() by {
                        if i != cpu as int {
                            assert(self.cpus@[i].wf());
                        }
                    }
                }
                result
            }
            Syscall::DgClose(id) => {
                if self.sockets.close(*id) {
                    SyscallReturn::Complete(0)
                } else {
                    SyscallReturn::Error(Error::NoSuchSocket)
                }
            }
            Syscall::Yield => {
                self.park_current(pid);
                SyscallReturn::Complete(0)
            }
            Syscall::Unknown => SyscallReturn::Error(Error::InvalidSyscall),
        };
        let drained = self.drain_wakes_for(pid, cap);
        let count = drained.len() as u64;
        if count > 0 {
            effects.push(Effect::DeliverWakes { pid, base: wake_base, ids: drained });
        }
        frame.set_syscall_return(result);
        frame.set_tasks_to_wake_count(count);
        result
    }

    /// Mark the process Waiting: parked until any wake arrives.
    fn park_current(&mut self, pid: u64)
        requires
            old(self).wf(),
        ensures
            final(self).wf(),
            final(self).cpus@ == old(self).cpus@,
            final(self).sockets == old(self).sockets,
            final(self).frames == old(self).frames,
            final(self).procs.next_pid == old(self).procs.next_pid,
            final(self).procs.runnable@ == old(self).procs.runnable@,
            final(self).procs.procs@.len() == old(self).procs.procs@.len(),
            forall|k: int| 0 <= k < old(self).procs.procs@.len()
                && (#[trigger] old(self).procs.procs@[k]).pid != pid
                ==> final(self).procs.procs@[k] == old(self).procs.procs@[k],
            forall|k: int| 0 <= k < old(self).procs.procs@.len()
                && (#[trigger] old(self).procs.procs@[k]).pid == pid
                ==> final(self).procs.procs@[k] == (Process {
                    state: ProcessState::Waiting,
                    ..old(self).procs.procs@[k]
                }),
    {
        let idx = match self.procs.find(pid) {
            Some(i) => i,
            None => { return; }
        };
        let ghost orig = self.procs.procs@;
        let mut p = crate::process::take_slot(&mut self.procs.procs, idx);
        p.wait();
        crate::process::put_slot(&mut self.procs.procs, idx, p);
        proof {
            assert(self.procs.procs@ =~= orig.update(idx as int,
                self.procs.procs@[idx as int]));
        }
    }

    /// Drain the caller's pending wake ids, up to the capacity `cap`
    /// that the live syscall frame names for its tasks-to-wake buffer,
    /// clearing a Waiting state when any were delivered.  The drained
    /// ids are returned, oldest first, for delivery into the buffer.
    fn drain_wakes_for(&mut self, pid: u64, cap: u64) -> (drained: Vec<u64>)
        requires
            old(self).wf(),
        ensures
            final(self).wf(),
            final(self).cpus@ == old(self).cpus@,
            final(self).sockets == old(self).sockets,
            final(self).frames == old(self).frames,
            final(self).procs.next_pid == old(self).procs.next_pid,
            final(self).procs.runnable@ == old(self).procs.runnable@,
            final(self).procs.procs@.len() == old(self).procs.procs@.len(),
            (exists|i: int| 0 <= i < old(self).procs.procs@.len()
                && (#[trigger] old(self).procs.procs@[i]).pid == pid) ==> exists|i: int| {
                &&& 0 <= i < old(self).procs.procs@.len()
                &&& (#[trigger] old(self).procs.procs@[i]).pid == pid
                &&& {
                    let p = old(self).procs.procs@[i];
                    let n = vstd::math::min(p.wake_queue@.len() as int, cap as int);
                    &&& drained@ == p.wake_queue@.take(n)
                    &&& final(self).procs.procs@[i].wake_queue@ == p.wake_queue@.skip(n)
                    &&& final(self).procs.procs@[i].state == (
                            if n > 0 && p.state == ProcessState::Waiting {
                                ProcessState::Running
                            } else {
                                p.state
                            })
                    &&& final(self).procs.procs@[i].pid == p.pid
                    &&& final(self).procs.procs@[i].context == p.context
                    &&& final(self).procs.procs@[i].vm == p.vm
                    &&& final(self).procs.procs@[i].exit_code == p.exit_code
                    &&& final(self).procs.procs@[i].sched_in == p.sched_in
                    &&& final(self).procs.procs@[i].on_cpu == p.on_cpu
                    &&& forall|k: int| 0 <= k < old(self).procs.procs@.len() && k != i
                            ==> final(self).procs.procs@[k] == old(self).procs.procs@[k]
                }
            },
            (forall|i: int| 0 <= i < old(self).procs.procs@.len()
                ==> (#[trigger] old(self).procs.procs@[i]).pid != pid)
                ==> drained@ == Seq::<u64>::empty() && final(self).procs == old(self).procs,
    {
        let idx = match self.procs.find(pid) {
            Some(i) => i,
            None => { return Vec::new(); }
        };
        let ghost orig = self.procs.procs@;
        let mut p = crate::process::take_slot(&mut self.procs.procs, idx);
        let drained = p.drain_tasks_to_wake(cap);
        if drained.len() > 0 {
            match p.state {
                ProcessState::Waiting => { p.unwait(); }
                _ => {}
            }
        }
        crate::process::put_slot(&mut self.procs.procs, idx, p);
        proof {
            assert(self.procs.procs@ =~= orig.update(idx as int,
                self.procs.procs@[idx as int]));
        }
        drained
    }

    /// The whole interrupt path: route the vector to its handler, then,
    /// for an interrupt that arrived from usermode, save the frame into
    /// the running process, take it off-CPU and apply the scheduler's
    /// decision: continue inside the timeslice, rotate on preemption,
    /// switch away from a waiting process, or retire an exited one
    /// (spawning the background removal of its record).
    pub fn rs_interrupt_shim(
        &mut self,
        cpu: usize,
        frame: &mut InterruptFrame,
        call: Option<&Syscall>,
        effects: &mut Vec<Effect>,
    ) -> (r: ResumeDecision)
        requires
            old(self).wf(),
            cpu < old(self).cpus@.len(),
            crate::x86::interrupts::spec_route(old(frame).interrupt_number)
                == HandlerRoute::Syscall ==> call is Some,
            old(frame).cs & 0x3 == 0x3 ==> old(self).cpus@[cpu as int].running is Some,
        ensures
            final(self).wf(),
            final(self).cpus@.len() == old(self).cpus@.len(),
            crate::x86::interrupts::spec_route(old(frame).interrupt_number)
                == HandlerRoute::IpiPanic ==> r is Halt,
            crate::x86::interrupts::spec_route(old(frame).interrupt_number)
                == HandlerRoute::PageFault
                ==> r is Halt
                    && final(effects)@ == old(effects)@.push(Effect::BroadcastPanic),
            crate::x86::interrupts::spec_route(old(frame).interrupt_number)
                == HandlerRoute::Unexpected
                ==> r is Halt
                    && final(effects)@ == old(effects)@.push(Effect::BroadcastPanic),
            (crate::x86::interrupts::spec_route(old(frame).interrupt_number)
                    == HandlerRoute::Irq(0)
                    && old(self).cpus@[cpu as int].timer.ticks < u64::MAX
                ==> final(self).cpus@[cpu as int].timer.ticks
                    == old(self).cpus@[cpu as int].timer.ticks + 1),
            // the scheduler's step, lifted to this entry point: on a
            // usermode frame whose route leaves the tables alone (the
            // trace vectors outright; the timer vector when this CPU has
            // nothing queued and nothing due, as in a tight loop), the
            // decision follows `should_run` at the returned-to tick --
            // resume inside the timeslice, rotate to the head on
            // preemption, yield the CPU or retire the record otherwise
            ({
                let rt = crate::x86::interrupts::spec_route(old(frame).interrupt_number);
                let t0 = old(self).cpus@[cpu as int].timer;
                let inert_timer = rt == HandlerRoute::Irq(0)
                    && old(self).cpus@[cpu as int].executor.tasks_to_poll@.len() == 0
                    && t0.ticks < u64::MAX
                    && (forall|k: int| 0 <= k < t0.events@.len()
                            ==> (#[trigger] t0.events@[k]).time > t0.ticks + 1);
                let inert = rt == HandlerRoute::Debug || rt == HandlerRoute::Breakpoint
                    || inert_timer;
                let now = if rt == HandlerRoute::Irq(0) {
                    (t0.ticks + 1) as u64
                } else {
                    t0.ticks
                };
                let running = old(self).cpus@[cpu as int].running;
                let queue = old(self).procs.runnable@;
                let head = queue[0];
                inert && old(frame).cs & 0x3 == 0x3 && running is Some
                    ==> forall|i: int| 0 <= i < old(self).procs.procs@.len()
                        && (#[trigger] old(self).procs.procs@[i]).pid
                            == running.unwrap() ==> {
                    let p = old(self).procs.procs@[i];
                    let d = crate::process::call_should_run(p, now);
                    &&& (d == ProcessDisposition::MayContinue ==> {
                        &&& r == (ResumeDecision::Resume { root_frame: p.vm.root_frame })
                        &&& final(self).procs.procs@[i].context.frame == *old(frame)
                        &&& final(self).procs.procs@[i].on_cpu == Some(cpu)
                        &&& final(self).procs.procs@[i].state == p.state
                        &&& final(self).procs.runnable@ == queue
                    })
                    &&& (d == ProcessDisposition::TimesUp && queue.len() == 0 ==> {
                        &&& r == (ResumeDecision::Resume { root_frame: p.vm.root_frame })
                        &&& final(self).procs.procs@[i].context.frame == *old(frame)
                        &&& final(self).procs.procs@[i].on_cpu == Some(cpu)
                        &&& final(self).procs.procs@[i].state == p.state
                    })
                    &&& (d == ProcessDisposition::TimesUp && queue.len() > 0
                            && (exists|j: int| 0 <= j < old(self).procs.procs@.len()
                                && (#[trigger] old(self).procs.procs@[j]).pid == head)
                        ==> {
                        &&& r is Switch
                        &&& final(self).cpus@[cpu as int].running == Some(head)
                        &&& final(self).procs.runnable@
                                == (if queue.drop_first().contains(running.unwrap()) {
                                    queue.drop_first()
                                } else {
                                    queue.drop_first().push(running.unwrap())
                                })
                    })
                    &&& (d == ProcessDisposition::NotNow && queue.len() == 0 ==> {
                        &&& r is Idle
                        &&& final(self).procs.procs@[i].context.frame == *old(frame)
                        &&& final(self).procs.procs@[i].on_cpu is None
                        &&& final(self).procs.procs@[i].state == p.state
                    })
                    &&& (d == ProcessDisposition::NotNow && queue.len() > 0
                            && (exists|j: int| 0 <= j < old(self).procs.procs@.len()
                                && (#[trigger] old(self).procs.procs@[j]).pid == head)
                        ==> {
                        &&& r is Switch
                        &&& final(self).cpus@[cpu as int].running == Some(head)
                        &&& final(self).procs.runnable@ == queue.drop_first()
                    })
                    &&& (d == ProcessDisposition::NeverAgain ==> {
                        &&& (old(self).cpus@[cpu as int].executor.next_id < u64::MAX
                            ==> final(self).cpus@[cpu as int].executor.tasks@.len() > 0
                                && final(self).cpus@[cpu as int].executor.tasks@.last()
                                    == (Task {
                                        id: old(self).cpus@[cpu as int].executor.next_id,
                                        kind: KernelTask::RemoveProcess {
                                            pid: running.unwrap(),
                                        },
                                    }))
                        &&& (queue.len() == 0 ==> r is Idle
                                && final(self).cpus@[cpu as int].running is None)
                        &&& (queue.len() > 0
                                && (exists|j: int| 0 <= j < old(self).procs.procs@.len()
                                    && (#[trigger] old(self).procs.procs@[j]).pid == head)
                            ==> r is Switch
                                && final(self).cpus@[cpu as int].running == Some(head)
                                && final(self).procs.runnable@ == queue.drop_first())
                    })
                }
            }),
    {
        let from_usermode = frame.from_usermode();
        match route(frame.interrupt_number()) {
            HandlerRoute::Debug => {}
            HandlerRoute::Breakpoint => {}
            HandlerRoute::PageFault => {
                effects.push(Effect::BroadcastPanic);
                return ResumeDecision::Halt;
            }
            HandlerRoute::Irq(n) => {
                if n == 0 {
                    self.timer_tick(cpu, effects);
                }
            }
            HandlerRoute::Syscall => {
                match call {
                    Some(c) => {
                        if self.cpus[cpu].running.is_some() {
                            self.handle_syscall(cpu, frame, c, effects);
                        }
                    }
                    None => {}
                }
            }
            HandlerRoute::Ipi => {
                let mut pc = PerCpu::placeholder();
                self.cpus.set_and_swap(cpu, &mut pc);
                let work = crate::ipi::handle_ipi_irq(&mut pc);
                self.cpus.set_and_swap(cpu, &mut pc);
                proof {
                    assert forall|i: int| 0 <= i < self.cpus@.len()
                        implies (#[trigger] self.cpus@[i]).wf() by {
                        if i != cpu as int {
                            assert(self.cpus@[i].wf());
                        }
                    }
                }
                let mut k: usize = 0;
                while k < work.len()
                    invariant
                        self.wf(),
                        self.cpus@.len() == old(self).cpus@.len(),
                    decreases work@.len() - k,
                {
                    effects.push(Effect::Backtrace { cpu });
                    k = k + 1;
                }
            }
            HandlerRoute::IpiPanic => {
                return ResumeDecision::Halt;
            }
            HandlerRoute::Unexpected => {
                effects.push(Effect::BroadcastPanic);
                return ResumeDecision::Halt;
            }
        }

        if from_usermode {
            self.interrupt_return(cpu, frame)
        } else {
            let next = self.procs.maybe_run_usermode_program(None, false);
            self.switch_or(next, cpu, ResumeDecision::KernelReturn)
        }
    }

    /// The scheduler's step on return from an interrupt that arrived
    /// from usermode: save the frame into the running process's context,
    /// take it off-CPU, and act on `should_run` -- a process inside its
    /// timeslice resumes on this CPU; a preempted one is requeued behind
    /// the head it yields to; a waiting one gives the CPU away; an
    /// exited one is retired by a spawned background removal task.
    /// Where the runqueue offers nobody to switch to, a preempted
    /// process simply continues and a waiting or exited one leaves the
    /// CPU idle.
    pub fn interrupt_return(&mut self, cpu: usize, frame: &InterruptFrame)
        -> (r: ResumeDecision)
        requires
            old(self).wf(),
            cpu < old(self).cpus@.len(),
        ensures
            final(self).wf(),
            final(self).cpus@.len() == old(self).cpus@.len(),
            final(self).frames == old(self).frames,
            final(self).sockets == old(self).sockets,
            forall|c: int| 0 <= c < old(self).cpus@.len()
                ==> (#[trigger] final(self).cpus@[c]).timer == old(self).cpus@[c].timer,
            ({
                let running = old(self).cpus@[cpu as int].running;
                let now = old(self).cpus@[cpu as int].timer.ticks;
                let queue = old(self).procs.runnable@;
                let head = queue[0];
                running is Some ==> forall|i: int|
                    0 <= i < old(self).procs.procs@.len()
                        && (#[trigger] old(self).procs.procs@[i]).pid
                            == running.unwrap() ==> {
                    let p = old(self).procs.procs@[i];
                    let d = crate::process::call_should_run(p, now);
                    // the frame is saved into the record in every case
                    // where the record is not immediately re-dispatched
                    &&& (d == ProcessDisposition::MayContinue ==> {
                        &&& r == (ResumeDecision::Resume { root_frame: p.vm.root_frame })
                        &&& final(self).procs.procs@[i].context.frame == *frame
                        &&& final(self).procs.procs@[i].on_cpu == Some(cpu)
                        &&& final(self).procs.procs@[i].state == p.state
                        &&& final(self).procs.runnable@ == queue
                    })
                    &&& (d == ProcessDisposition::TimesUp && queue.len() == 0 ==> {
                        &&& r == (ResumeDecision::Resume { root_frame: p.vm.root_frame })
                        &&& final(self).procs.procs@[i].context.frame == *frame
                        &&& final(self).procs.procs@[i].on_cpu == Some(cpu)
                        &&& final(self).procs.procs@[i].state == p.state
                    })
                    &&& (d == ProcessDisposition::TimesUp && queue.len() > 0
                            && (exists|j: int| 0 <= j < old(self).procs.procs@.len()
                                && (#[trigger] old(self).procs.procs@[j]).pid == head)
                        ==> {
                        &&& r is Switch
                        &&& final(self).cpus@[cpu as int].running == Some(head)
                        &&& final(self).procs.runnable@
                                == (if queue.drop_first().contains(running.unwrap()) {
                                    queue.drop_first()
                                } else {
                                    queue.drop_first().push(running.unwrap())
                                })
                    })
                    &&& (d == ProcessDisposition::NotNow && queue.len() == 0 ==> {
                        &&& r is Idle
                        &&& final(self).procs.procs@[i].context.frame == *frame
                        &&& final(self).procs.procs@[i].on_cpu is None
                        &&& final(self).procs.procs@[i].state == p.state
                    })
                    &&& (d == ProcessDisposition::NotNow && queue.len() > 0
                            && (exists|j: int| 0 <= j < old(self).procs.procs@.len()
                                && (#[trigger] old(self).procs.procs@[j]).pid == head)
                        ==> {
                        &&& r is Switch
                        &&& final(self).cpus@[cpu as int].running == Some(head)
                        &&& final(self).procs.runnable@ == queue.drop_first()
                    })
                    &&& (d == ProcessDisposition::NeverAgain ==> {
                        &&& (old(self).cpus@[cpu as int].executor.next_id < u64::MAX
                            ==> final(self).cpus@[cpu as int].executor.tasks@.len() > 0
                                && final(self).cpus@[cpu as int].executor.tasks@.last()
                                    == (Task {
                                        id: old(self).cpus@[cpu as int].executor.next_id,
                                        kind: KernelTask::RemoveProcess {
                                            pid: running.unwrap(),
                                        },
                                    }))
                        &&& (queue.len() == 0 ==> r is Idle
                                && final(self).cpus@[cpu as int].running is None)
                        &&& (queue.len() > 0
                                && (exists|j: int| 0 <= j < old(self).procs.procs@.len()
                                    && (#[trigger] old(self).procs.procs@[j]).pid == head)
                            ==> r is Switch
                                && final(self).cpus@[cpu as int].running == Some(head)
                                && final(self).procs.runnable@ == queue.drop_first())
                    })
                }
            }),
    {
        let pid = match self.cpus[cpu].running {
            Some(p) => p,
            None => { return ResumeDecision::KernelReturn; }
        };
        let now = self.cpus[cpu].timer.ticks;
        let idx = match self.procs.find(pid) {
            Some(i) => i,
            None => { return ResumeDecision::KernelReturn; }
        };
        let ghost orig = self.procs.procs@;
        let mut p = crate::process::take_slot(&mut self.procs.procs, idx);
        p.set_context(frame);
        p.set_on_cpu(None);
        let disposition = p.should_run(now);
        let root_frame = p.vm.root_frame;
        crate::process::put_slot(&mut self.procs.procs, idx, p);
        proof {
            assert(self.procs.procs@ =~= orig.update(idx as int,
                self.procs.procs@[idx as int]));
            assert forall|j: int| 0 <= j < old(self).procs.procs@.len()
                implies (#[trigger] old(self).procs.procs@[j]).pid
                    == self.procs.procs@[j].pid by {
                if j != idx as int {
                    assert(self.procs.procs@[j] == orig[j]);
                }
            }
        }
        match disposition {
            ProcessDisposition::MayContinue => {
                self.mark_on_cpu(pid, cpu);
                ResumeDecision::Resume { root_frame }
            }
            ProcessDisposition::TimesUp => {
                let next = self.procs.maybe_run_usermode_program(Some(pid), true);
                match next {
                    Some(_) => {
                        self.switch_or(next, cpu, ResumeDecision::Resume { root_frame })
                    }
                    None => {
                        self.mark_on_cpu(pid, cpu);
                        ResumeDecision::Resume { root_frame }
                    }
                }
            }
            ProcessDisposition::NotNow => {
                let next = self.procs.maybe_run_usermode_program(None, false);
                self.switch_or(next, cpu, ResumeDecision::Idle)
            }
            ProcessDisposition::NeverAgain => {
                let mut pc = PerCpu::placeholder();
                self.cpus.set_and_swap(cpu, &mut pc);
                if pc.executor.next_id < u64::MAX {
                    pc.executor.spawn(KernelTask::RemoveProcess { pid });
                }
                pc.running = None;
                self.cpus.set_and_swap(cpu, &mut pc);
                proof {
                    assert forall|i: int| 0 <= i < self.cpus@.len()
                        implies (#[trigger] self.cpus@[i]).wf() by {
                        if i != cpu as int {
                            assert(self.cpus@[i].wf());
                        }
                    }
                }
                let next = self.procs.maybe_run_usermode_program(None, false);
                self.switch_or(next, cpu, ResumeDecision::Idle)
            }
        }
    }

    /// Put the record for `pid` back on this CPU: the resume path's
    /// "set on-cpu to self".
    fn mark_on_cpu(&mut self, pid: u64, cpu: usize)
        requires
            old(self).wf(),
        ensures
            final(self).wf(),
            final(self).cpus@ == old(self).cpus@,
            final(self).frames == old(self).frames,
            final(self).sockets == old(self).sockets,
            final(self).procs.runnable@ == old(self).procs.runnable@,
            final(self).procs.next_pid == old(self).procs.next_pid,
            final(self).procs.procs@.len() == old(self).procs.procs@.len(),
            forall|k: int| 0 <= k < old(self).procs.procs@.len()
                && (#[trigger] old(self).procs.procs@[k]).pid != pid
                ==> final(self).procs.procs@[k] == old(self).procs.procs@[k],
            forall|k: int| 0 <= k < old(self).procs.procs@.len()
                && (#[trigger] old(self).procs.procs@[k]).pid == pid
                ==> final(self).procs.procs@[k] == (Process {
                    on_cpu: Some(cpu),
                    ..old(self).procs.procs@[k]
                }),
    {
        let idx = match self.procs.find(pid) {
            Some(i) => i,
            None => { return; }
        };
        let ghost orig = self.procs.procs@;
        let mut p = crate::process::take_slot(&mut self.procs.procs, idx);
        p.set_on_cpu(Some(cpu));
        crate::process::put_slot(&mut self.procs.procs, idx, p);
        proof {
            assert(self.procs.procs@ =~= orig.update(idx as int,
                self.procs.procs@[idx as int]));
        }
    }

    /// Dispatch `next` on `cpu` where the scheduler picked one;
    /// otherwise the fallback decision stands.
    fn switch_or(&mut self, next: Option<u64>, cpu: usize, fallback: ResumeDecision)
        -> (r: ResumeDecision)
        requires
            old(self).wf(),
            cpu < old(self).cpus@.len(),
        ensures
            final(self).wf(),
            final(self).cpus@.len() == old(self).cpus@.len(),
            final(self).frames == old(self).frames,
            final(self).sockets == old(self).sockets,
            final(self).procs.runnable@ == old(self).procs.runnable@,
            final(self).procs.next_pid == old(self).procs.next_pid,
            forall|c: int| 0 <= c < old(self).cpus@.len()
                ==> (#[trigger] final(self).cpus@[c]).timer == old(self).cpus@[c].timer
                    && final(self).cpus@[c].executor.tasks@
                        == old(self).cpus@[c].executor.tasks@
                    && final(self).cpus@[c].executor.tasks_to_poll@
                        == old(self).cpus@[c].executor.tasks_to_poll@
                    && final(self).cpus@[c].executor.next_id
                        == old(self).cpus@[c].executor.next_id,
            next is None ==> r == fallback && *final(self) == *old(self),
            (next is Some && exists|i: int| 0 <= i < old(self).procs.procs@.len()
                    && (#[trigger] old(self).procs.procs@[i]).pid == next.unwrap())
                ==> r is Switch
                    && final(self).cpus@[cpu as int].running == Some(next.unwrap()),
            (next is Some && forall|i: int| 0 <= i < old(self).procs.procs@.len()
                    ==> (#[trigger] old(self).procs.procs@[i]).pid != next.unwrap())
                ==> r == fallback
                    && final(self).procs.procs@ == old(self).procs.procs@
                    && final(self).cpus@ == old(self).cpus@,
    {
        let pid = match next {
            Some(p) => p,
            None => { return fallback; }
        };
        let now = self.cpus[cpu].timer.ticks;
        match self.procs.dispatch(pid, cpu, now) {
            Some(out) => {
                let ghost before = self.cpus@;
                let mut pc = PerCpu::placeholder();
                self.cpus.set_and_swap(cpu, &mut pc);
                pc.running = Some(pid);
                self.cpus.set_and_swap(cpu, &mut pc);
                proof {
                    assert forall|i: int| 0 <= i < self.cpus@.len()
                        implies (#[trigger] self.cpus@[i]).wf() by {
                        if i != cpu as int {
                            assert(self.cpus@[i] == before[i]);
                        }
                    }
                }
                ResumeDecision::Switch(out)
            }
            None => fallback,
        }
    }

    /// Mark the process running on `cpu` exited with `code`.  Its record
    /// keeps the code and is never dispatched again; nothing else moves.
    pub fn exit(&mut self, cpu: usize, code: u64) -> (r: u64)
        requires
            old(self).wf(),
            cpu < old(self).cpus@.len(),
        ensures
            final(self).wf(),
            r == code,
            final(self).cpus@ == old(self).cpus@,
            final(self).sockets == old(self).sockets,
            final(self).frames == old(self).frames,
            final(self).procs.runnable@ == old(self).procs.runnable@,
            final(self).procs.next_pid == old(self).procs.next_pid,
            old(self).cpus@[cpu as int].running is None
                ==> final(self).procs.procs@ == old(self).procs.procs@,
            ({
                let running = old(self).cpus@[cpu as int].running;
                running is Some ==> {
                    &&& (exists|i: int| 0 <= i < old(self).procs.procs@.len()
                            && (#[trigger] old(self).procs.procs@[i]).pid
                                == running.unwrap())
                        ==> exists|i: int| {
                            &&& 0 <= i < old(self).procs.procs@.len()
                            &&& (#[trigger] old(self).procs.procs@[i]).pid
                                    == running.unwrap()
                            &&& final(self).procs.procs@ == old(self).procs.procs@
                                    .update(i, Process {
                                        state: ProcessState::Exited,
                                        exit_code: Some(code),
                                        ..old(self).procs.procs@[i]
                                    })
                        }
                    &&& ((forall|i: int| 0 <= i < old(self).procs.procs@.len()
                            ==> (#[trigger] old(self).procs.procs@[i]).pid
                                != running.unwrap())
                        ==> final(self).procs.procs@ == old(self).procs.procs@)
                }
            }),
    {
        match self.cpus[cpu].running {
            Some(pid) => {
                self.procs.exit(pid, code);
            }
            None => {}
        }
        code
    }

    /// Queue a backtrace request on every CPU; the broadcast vector then
    /// makes each print its own.
    pub fn backtrace_all(&mut self)
        requires
            old(self).wf(),
        ensures
            final(self).wf(),
            final(self).cpus@.len() == old(self).cpus@.len(),
            forall|i: int| 0 <= i < old(self).cpus@.len()
                ==> (#[trigger] final(self).cpus@[i]).ipi_queue@
                    == old(self).cpus@[i].ipi_queue@.push(crate::ipi::IpiFunction {
                        kind: crate::ipi::IpiKind::Backtrace,
                    }),
    {
        crate::ipi::submit_ipi_to_all_cpus(&mut self.cpus, crate::ipi::IpiKind::Backtrace);
        proof {
            assert forall|i: int| 0 <= i < self.cpus@.len()
                implies (#[trigger] self.cpus@[i]).wf() by {
                assert(old(self).cpus@[i].wf());
            }
        }
    }
}

} // verus!
