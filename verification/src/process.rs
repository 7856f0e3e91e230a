//! Process records, the global process table, and scheduling decisions.
//!
//! A process owns its address-space tree and its saved context.  The
//! table serializes access to every record; the runqueue is a FIFO of
//! runnable pids.  Dispatch decisions are pure functions of the record
//! and the clock, so every rule the scheduler follows is stated in a
//! contract.

use vstd::prelude::*;
use vstd::pervasive::VecAdditionalExecFns;
use crate::TIMESLICE_TICKS;
use crate::pmm::FrameAllocator;
use crate::x86::context::{Context, InterruptFrame};
use crate::x86::page::{AddressSpace, free_seq, free_tree, space_frames};

pub mod map;

verus! {

/// The lifecycle state of a process.
#[derive(Copy, Clone, PartialEq, Eq, Structural, Debug)]
pub enum ProcessState {
    Running,
    Waiting,
    Exited,
}

/// What the scheduler should do with a process on return from interrupt.
#[derive(Copy, Clone, PartialEq, Eq, Structural, Debug)]
pub enum ProcessDisposition {
    MayContinue,
    NotNow,
    TimesUp,
    NeverAgain,
}

/// One process record.
pub struct Process {
    pub context: Context,
    pub vm: AddressSpace,
    pub state: ProcessState,
    pub exit_code: Option<u64>,
    pub pid: u64,
    pub sched_in: u64,
    pub on_cpu: Option<usize>,
    pub wake_queue: Vec<u64>,
}

impl Process {
    pub open spec fn wf(self) -> bool {
        self.vm.wf()
    }

    /// Whether the process is on a CPU whose timeslice has elapsed: it was
    /// dispatched at `sched_in` and `TIMESLICE_TICKS` have passed since.
    pub fn time_expired(&self, now: u64) -> (r: bool)
        ensures
            r == (self.on_cpu is Some && self.sched_in + TIMESLICE_TICKS <= now),
    {
        self.on_cpu.is_some() && now >= TIMESLICE_TICKS
            && self.sched_in <= now - TIMESLICE_TICKS
    }

    /// The dispatch decision at tick `now`: an exited process never runs
    /// again, a waiting one not now, a running one continues inside its
    /// timeslice (`sched_in + TIMESLICE_TICKS > now`) and is preempted
    /// once the slice has elapsed.
    pub fn should_run(&self, now: u64) -> (r: ProcessDisposition)
        ensures
            r == (match self.state {
                ProcessState::Exited => ProcessDisposition::NeverAgain,
                ProcessState::Waiting => ProcessDisposition::NotNow,
                ProcessState::Running => if self.sched_in + TIMESLICE_TICKS > now {
                    ProcessDisposition::MayContinue
                } else {
                    ProcessDisposition::TimesUp
                },
            }),
    {
        match self.state {
            ProcessState::Exited => ProcessDisposition::NeverAgain,
            ProcessState::Waiting => ProcessDisposition::NotNow,
            ProcessState::Running => {
                if now < self.sched_in || now - self.sched_in < TIMESLICE_TICKS {
                    ProcessDisposition::MayContinue
                } else {
                    ProcessDisposition::TimesUp
                }
            }
        }
    }

    /// Mark the process exited with its code.
    pub fn exit(&mut self, code: u64)
        ensures
            final(self).state == ProcessState::Exited,
            final(self).exit_code == Some(code),
            final(self).context == old(self).context,
            final(self).pid == old(self).pid,
            final(self).sched_in == old(self).sched_in,
            final(self).on_cpu == old(self).on_cpu,
            final(self).wake_queue == old(self).wake_queue,
            final(self).vm == old(self).vm,
    {
        self.state = ProcessState::Exited;
        self.exit_code = Some(code);
    }

    /// Park the process until a wake arrives.
    pub fn wait(&mut self)
        ensures
            *final(self) == (Process { state: ProcessState::Waiting, ..*old(self) }),
    {
        self.state = ProcessState::Waiting;
    }

    /// Clear a Waiting state: the process is immediately resumable.
    pub fn unwait(&mut self)
        ensures
            *final(self) == (Process { state: ProcessState::Running, ..*old(self) }),
    {
        self.state = ProcessState::Running;
    }

    /// Save an interrupt frame as the process's context.
    pub fn set_context(&mut self, frame: &InterruptFrame)
        ensures
            final(self).context.frame == *frame,
            final(self).context.has_fpu_context,
            final(self).state == old(self).state,
            final(self).exit_code == old(self).exit_code,
            final(self).pid == old(self).pid,
            final(self).sched_in == old(self).sched_in,
            final(self).on_cpu == old(self).on_cpu,
            final(self).wake_queue == old(self).wake_queue,
            final(self).vm == old(self).vm,
    {
        self.context = Context::new(frame);
    }

    /// Record which CPU the process is on, or that it is off-CPU.
    pub fn set_on_cpu(&mut self, on_cpu: Option<usize>)
        ensures
            *final(self) == (Process { on_cpu, ..*old(self) }),
    {
        self.on_cpu = on_cpu;
    }

    /// Append a task id to deliver into the process's tasks-to-wake
    /// buffer at its next dispatch.
    pub fn push_wake(&mut self, task_id: u64)
        ensures
            final(self).wake_queue@ == old(self).wake_queue@.push(task_id),
            final(self).state == old(self).state,
            final(self).exit_code == old(self).exit_code,
            final(self).pid == old(self).pid,
            final(self).sched_in == old(self).sched_in,
            final(self).on_cpu == old(self).on_cpu,
            final(self).context == old(self).context,
            final(self).vm == old(self).vm,
    {
        self.wake_queue.push(task_id);
    }

    /// Remove up to `cap` pending wake task ids, oldest first; they are
    /// written to the caller's buffer.
    pub fn drain_tasks_to_wake(&mut self, cap: u64) -> (drained: Vec<u64>)
        ensures
            final(self).wake_queue@ == old(self).wake_queue@.skip(drained@.len() as int),
            drained@ == old(self).wake_queue@.take(drained@.len() as int),
            drained@.len() == vstd::math::min(old(self).wake_queue@.len() as int, cap as int),
            final(self).state == old(self).state,
            final(self).exit_code == old(self).exit_code,
            final(self).pid == old(self).pid,
            final(self).sched_in == old(self).sched_in,
            final(self).on_cpu == old(self).on_cpu,
            final(self).context == old(self).context,
            final(self).vm == old(self).vm,
    {
        let mut drained: Vec<u64> = Vec::new();
        let ghost orig = self.wake_queue@;
        while (drained.len() as u64) < cap && self.wake_queue.len() > 0
            invariant
                drained@.len() <= cap,
                drained@.len() + self.wake_queue@.len() == orig.len(),
                self.wake_queue@ =~= orig.skip(drained@.len() as int),
                drained@ =~= orig.take(drained@.len() as int),
                self.state == old(self).state,
                self.exit_code == old(self).exit_code,
                self.pid == old(self).pid,
                self.sched_in == old(self).sched_in,
                self.on_cpu == old(self).on_cpu,
                self.context == old(self).context,
                self.vm == old(self).vm,
            decreases self.wake_queue@.len(),
        {
            let id = self.wake_queue.remove(0);
            proof {
                let n = drained@.len() as int;
                assert(id == orig[n]);
                assert(orig.skip(n).drop_first() =~= orig.skip(n + 1));
                assert(orig.take(n + 1).drop_last() =~= orig.take(n));
                assert(orig.take(n + 1) =~= orig.take(n).push(id));
            }
            drained.push(id);
        }
        drained
    }
}

/// The global process table and runqueue.
pub struct ProcessTable {
    pub procs: Vec<Process>,
    pub next_pid: u64,
    pub runnable: Vec<u64>,
}

impl ProcessTable {
    /// Pids are unique, below `next_pid`, and the runqueue holds no pid
    /// twice.
    pub open spec fn wf(self) -> bool {
        &&& forall|i: int, j: int| 0 <= i < j < self.procs@.len()
                ==> (#[trigger] self.procs@[i]).pid != (#[trigger] self.procs@[j]).pid
        &&& forall|i: int| 0 <= i < self.procs@.len()
                ==> (#[trigger] self.procs@[i]).pid < self.next_pid
        &&& self.next_pid >= 1
        &&& forall|i: int, j: int| 0 <= i < j < self.runnable@.len()
                ==> self.runnable@[i] != self.runnable@[j]
    }

    /// An empty table; pids start at 1.
    pub fn new() -> (r: ProcessTable)
        ensures
            r.wf(),
            r.procs@ == Seq::<Process>::empty(),
            r.runnable@ == Seq::<u64>::empty(),
            r.next_pid == 1,
    {
        ProcessTable { procs: Vec::new(), next_pid: 1, runnable: Vec::new() }
    }

    /// The index of pid's record, if the process still exists.
    pub fn find(&self, pid: u64) -> (r: Option<usize>)
        ensures
            match r {
                Some(i) => i < self.procs@.len() && self.procs@[i as int].pid == pid,
                None => forall|k: int| 0 <= k < self.procs@.len()
                    ==> (#[trigger] self.procs@[k]).pid != pid,
            },
    {
        let mut i: usize = 0;
        while i < self.procs.len()
            invariant
                0 <= i <= self.procs@.len(),
                forall|k: int| 0 <= k < i ==> (#[trigger] self.procs@[k]).pid != pid,
            decreases self.procs@.len() - i,
        {
            if self.procs[i].pid == pid {
                return Some(i);
            }
            i = i + 1;
        }
        None
    }

    /// Put `pid` on the runqueue unless it is already queued.
    pub fn schedule_pid(&mut self, pid: u64)
        requires
            old(self).wf(),
        ensures
            final(self).wf(),
            final(self).procs@ == old(self).procs@,
            final(self).next_pid == old(self).next_pid,
            old(self).runnable@.contains(pid)
                ==> final(self).runnable@ == old(self).runnable@,
            !old(self).runnable@.contains(pid)
                ==> final(self).runnable@ == old(self).runnable@.push(pid),
    {
        let mut i: usize = 0;
        while i < self.runnable.len()
            invariant
                0 <= i <= self.runnable@.len(),
                forall|k: int| 0 <= k < i ==> self.runnable@[k] != pid,
                self == old(self),
                old(self).wf(),
            decreases self.runnable@.len() - i,
        {
            if self.runnable[i] == pid {
                proof {
                    assert(self.runnable@.contains(pid));
                    assert(self.wf());
                }
                return;
            }
            i = i + 1;
        }
        proof {
            assert(!old(self).runnable@.contains(pid)) by {
                if old(self).runnable@.contains(pid) {
                    let w = choose|w: int| 0 <= w < old(self).runnable@.len()
                        && old(self).runnable@[w] == pid;
                    assert(old(self).runnable@[w] != pid);
                }
            }
        }
        self.runnable.push(pid);
        proof {
            let q = self.runnable@;
            assert forall|a: int, b: int| 0 <= a < b < q.len()
                implies q[a] != q[b] by {
                if b == q.len() - 1 {
                    assert(q[a] == old(self).runnable@[a]);
                }
            }
        }
    }

    /// The scheduler's pick on return from interrupt: pop the runqueue
    /// head to run next; with `swap_in_current`, requeue the preempted
    /// current process behind it.  `None` (idle) exactly when the queue
    /// is empty.
    pub fn maybe_run_usermode_program(&mut self, current: Option<u64>, swap_in_current: bool)
        -> (r: Option<u64>)
        requires
            old(self).wf(),
        ensures
            final(self).wf(),
            final(self).procs@ == old(self).procs@,
            final(self).next_pid == old(self).next_pid,
            match r {
                Some(pid) => {
                    &&& old(self).runnable@.len() > 0
                    &&& pid == old(self).runnable@[0]
                    &&& match (swap_in_current, current) {
                        (true, Some(cur)) => final(self).runnable@
                            == (if old(self).runnable@.drop_first().contains(cur) {
                                old(self).runnable@.drop_first()
                            } else {
                                old(self).runnable@.drop_first().push(cur)
                            }),
                        _ => final(self).runnable@ == old(self).runnable@.drop_first(),
                    }
                },
                None => {
                    &&& old(self).runnable@.len() == 0
                    &&& final(self).runnable@ == old(self).runnable@
                },
            },
    {
        if self.runnable.len() == 0 {
            return None;
        }
        let pid = self.runnable.remove(0);
        proof {
            assert(self.runnable@ =~= old(self).runnable@.drop_first());
        }
        if swap_in_current {
            match current {
                Some(cur) => {
                    self.schedule_pid(cur);
                }
                None => {}
            }
        }
        Some(pid)
    }

    /// Mark pid exited with `code`.  Returns the code, or `None` where no
    /// such process exists.
    pub fn exit(&mut self, pid: u64, code: u64) -> (r: Option<u64>)
        requires
            old(self).wf(),
        ensures
            final(self).wf(),
            final(self).next_pid == old(self).next_pid,
            final(self).runnable@ == old(self).runnable@,
            match r {
                Some(c) => {
                    &&& c == code
                    &&& exists|i: int| {
                        &&& 0 <= i < old(self).procs@.len()
                        &&& (#[trigger] old(self).procs@[i]).pid == pid
                        &&& final(self).procs@ == old(self).procs@.update(i, Process {
                            state: ProcessState::Exited,
                            exit_code: Some(code),
                            ..old(self).procs@[i]
                        })
                    }
                },
                None => {
                    &&& final(self).procs@ == old(self).procs@
                    &&& forall|k: int| 0 <= k < old(self).procs@.len()
                            ==> (#[trigger] old(self).procs@[k]).pid != pid
                },
            },
    {
        let idx = match self.find(pid) {
            Some(i) => i,
            None => { return None; }
        };
        let ghost orig = self.procs@;
        let mut p = Process {
            context: Context::new_user(1),
            vm: AddressSpace { root_frame: 0, user: Vec::new(), kernel: Vec::new() },
            state: ProcessState::Running,
            exit_code: None,
            pid: 0,
            sched_in: 0,
            on_cpu: None,
            wake_queue: Vec::new(),
        };
        self.procs.set_and_swap(idx, &mut p);
        p.exit(code);
        self.procs.set_and_swap(idx, &mut p);
        proof {
            assert(self.procs@ =~= orig.update(idx as int, Process {
                state: ProcessState::Exited,
                exit_code: Some(code),
                ..orig[idx as int]
            }));
            assert((idx as int) < orig.len() && orig[idx as int].pid == pid
                && self.procs@ == orig.update(idx as int, Process {
                    state: ProcessState::Exited,
                    exit_code: Some(code),
                    ..orig[idx as int]
                }));
        }
        Some(code)
    }

    /// Drop pid's record and free its whole address-space tree back to
    /// the allocator.  A pid never reaches here while still queued.
    pub fn remove(&mut self, pid: u64, fa: &mut FrameAllocator)
        requires
            old(self).wf(),
            old(fa).wf(),
            forall|i: int| 0 <= i < old(self).procs@.len() ==> (#[trigger] old(self).procs@[i]).wf(),
        ensures
            final(self).wf(),
            final(fa).wf(),
            final(self).next_pid == old(self).next_pid,
            final(self).runnable@ == old(self).runnable@,
            spec_removed(*old(self), *final(self), old(fa).table@, final(fa).table@, pid),
            if old(self).procs@.filter(|p: Process| p.pid == pid).len() == 0 {
                final(self).procs@ == old(self).procs@ && *final(fa) == *old(fa)
            } else {
                exists|i: int| {
                    &&& 0 <= i < old(self).procs@.len()
                    &&& (#[trigger] old(self).procs@[i]).pid == pid
                    &&& final(self).procs@ == old(self).procs@.remove(i)
                    &&& final(fa).table@ == free_seq(old(fa).table@,
                            space_frames(old(self).procs@[i].vm))
                }
            },
    {
        let idx = match self.find(pid) {
            Some(i) => i,
            None => {
                proof {
                    lemma_filter_absent(old(self).procs@, pid);
                }
                return;
            }
        };
        let p = self.procs.remove(idx);
        free_tree(p.vm, fa);
        proof {
            lemma_filter_present(old(self).procs@, pid, idx as int);
        }
    }
}

/// A sequence with no record of `pid` filters to nothing for it.
pub proof fn lemma_filter_absent(s: Seq<Process>, pid: u64)
    requires
        forall|k: int| 0 <= k < s.len() ==> (#[trigger] s[k]).pid != pid,
    ensures
        s.filter(|p: Process| p.pid == pid).len() == 0,
    decreases s.len(),
{
    reveal(Seq::filter);
    if s.len() > 0 {
        lemma_filter_absent(s.drop_last(), pid);
    }
}

/// A sequence holding a record of `pid` filters to at least one.
pub proof fn lemma_filter_present(s: Seq<Process>, pid: u64, i: int)
    requires
        0 <= i < s.len(),
        s[i].pid == pid,
    ensures
        s.filter(|p: Process| p.pid == pid).len() >= 1,
    decreases s.len(),
{
    reveal(Seq::filter);
    if s.len() > 0 {
        if i == s.len() - 1 {
        } else {
            lemma_filter_present(s.drop_last(), pid, i);
        }
    }
}

/// What a dispatch hands the embedding program to resume a process: the
/// context to jump to, the tree to install, and the task ids delivered
/// into the caller's tasks-to-wake buffer at its base.
pub struct DispatchOutcome {
    pub context: Context,
    pub root_frame: u64,
    pub delivered: Vec<u64>,
    pub wake_buf_base: u64,
}

/// The relation `schedule_wakeup` establishes between two table states:
/// the pid's record (if any) gains `task_id` at the tail of its pending
/// wake list and the pid is queued unless already queued; a missing pid
/// changes nothing.
pub open spec fn spec_wakeup(pre: ProcessTable, post: ProcessTable, pid: u64, task_id: u64) -> bool {
    &&& post.next_pid == pre.next_pid
    &&& ((exists|i: int| 0 <= i < pre.procs@.len()
            && (#[trigger] pre.procs@[i]).pid == pid) ==> {
        &&& exists|i: int| {
            &&& 0 <= i < pre.procs@.len()
            &&& (#[trigger] pre.procs@[i]).pid == pid
            &&& post.procs@.len() == pre.procs@.len()
            &&& post.procs@[i].pid == pid
            &&& post.procs@[i].wake_queue@ == pre.procs@[i].wake_queue@.push(task_id)
            &&& post.procs@[i].state == pre.procs@[i].state
            &&& post.procs@[i].context == pre.procs@[i].context
            &&& post.procs@[i].vm == pre.procs@[i].vm
            &&& forall|k: int| 0 <= k < pre.procs@.len() && k != i
                    ==> post.procs@[k] == pre.procs@[k]
        }
        &&& (pre.runnable@.contains(pid) ==> post.runnable@ == pre.runnable@)
        &&& (!pre.runnable@.contains(pid) ==> post.runnable@ == pre.runnable@.push(pid))
    })
    &&& ((forall|i: int| 0 <= i < pre.procs@.len()
            ==> (#[trigger] pre.procs@[i]).pid != pid) ==> {
        &&& post.procs@ == pre.procs@
        &&& post.runnable@ == pre.runnable@
    })
}

/// The relation `remove` establishes between two table states and two
/// allocator tables: the pid's record (if any) leaves the table and its
/// tree's frames return to the allocator; a missing pid changes nothing.
pub open spec fn spec_removed(
    pre: ProcessTable,
    post: ProcessTable,
    pre_frames: Seq<crate::pmm::PageInfo>,
    post_frames: Seq<crate::pmm::PageInfo>,
    pid: u64,
) -> bool {
    &&& post.next_pid == pre.next_pid
    &&& post.runnable@ == pre.runnable@
    &&& if pre.procs@.filter(|p: Process| p.pid == pid).len() == 0 {
        post.procs@ == pre.procs@ && post_frames == pre_frames
    } else {
        exists|i: int| {
            &&& 0 <= i < pre.procs@.len()
            &&& (#[trigger] pre.procs@[i]).pid == pid
            &&& post.procs@ == pre.procs@.remove(i)
            &&& post_frames == free_seq(pre_frames, space_frames(pre.procs@[i].vm))
        }
    }
}

impl ProcessTable {
    /// Record that task `task_id` became runnable on behalf of `pid`:
    /// append it to the process's pending wake list and make sure the
    /// process is on the runqueue.  Unknown pids are gone processes; the
    /// wake is dropped.
    pub fn schedule_wakeup(&mut self, pid: u64, task_id: u64)
        requires
            old(self).wf(),
        ensures
            final(self).wf(),
            final(self).next_pid == old(self).next_pid,
            (exists|i: int| 0 <= i < old(self).procs@.len()
                && (#[trigger] old(self).procs@[i]).pid == pid) ==> {
                &&& exists|i: int| {
                    &&& 0 <= i < old(self).procs@.len()
                    &&& (#[trigger] old(self).procs@[i]).pid == pid
                    &&& final(self).procs@.len() == old(self).procs@.len()
                    &&& final(self).procs@[i].pid == pid
                    &&& final(self).procs@[i].wake_queue@
                            == old(self).procs@[i].wake_queue@.push(task_id)
                    &&& final(self).procs@[i].state == old(self).procs@[i].state
                    &&& final(self).procs@[i].context == old(self).procs@[i].context
                    &&& final(self).procs@[i].vm == old(self).procs@[i].vm
                    &&& final(self).procs@[i].sched_in == old(self).procs@[i].sched_in
                    &&& final(self).procs@[i].on_cpu == old(self).procs@[i].on_cpu
                    &&& forall|k: int| 0 <= k < old(self).procs@.len() && k != i
                            ==> final(self).procs@[k] == old(self).procs@[k]
                }
                &&& (old(self).runnable@.contains(pid)
                        ==> final(self).runnable@ == old(self).runnable@)
                &&& (!old(self).runnable@.contains(pid)
                        ==> final(self).runnable@ == old(self).runnable@.push(pid))
            },
            (forall|i: int| 0 <= i < old(self).procs@.len()
                ==> (#[trigger] old(self).procs@[i]).pid != pid) ==> {
                &&& final(self).procs@ == old(self).procs@
                &&& final(self).runnable@ == old(self).runnable@
            },
            spec_wakeup(*old(self), *final(self), pid, task_id),
    {
        let idx = match self.find(pid) {
            Some(i) => i,
            None => { return; }
        };
        let ghost orig = self.procs@;
        let mut p = placeholder_process();
        self.procs.set_and_swap(idx, &mut p);
        p.push_wake(task_id);
        self.procs.set_and_swap(idx, &mut p);
        proof {
            assert(self.procs@ =~= orig.update(idx as int, self.procs@[idx as int]));
        }
        self.schedule_pid(pid);
    }

    /// Dispatch `pid` on `cpu` at tick `now`: where the process was
    /// Waiting, deliver up to the buffer's capacity of pending wake task
    /// ids into the saved frame, set the result registers to Complete(0)
    /// and clear the Waiting state; stamp the scheduling tick and CPU,
    /// and hand back the context and tree root to jump with.  `None`
    /// exactly when no such process exists.
    pub fn dispatch(&mut self, pid: u64, cpu: usize, now: u64) -> (r: Option<DispatchOutcome>)
        requires
            old(self).wf(),
        ensures
            final(self).wf(),
            final(self).next_pid == old(self).next_pid,
            final(self).runnable@ == old(self).runnable@,
            match r {
                Some(out) => exists|i: int| {
                    &&& 0 <= i < old(self).procs@.len()
                    &&& (#[trigger] old(self).procs@[i]).pid == pid
                    &&& {
                        let p = old(self).procs@[i];
                        let cap = p.context.frame.rdx;
                        let n = if p.state == ProcessState::Waiting {
                            vstd::math::min(p.wake_queue@.len() as int, cap as int)
                        } else {
                            0int
                        };
                        &&& out.delivered@ == p.wake_queue@.take(n)
                        &&& out.wake_buf_base == p.context.frame.rsi
                        &&& out.root_frame == p.vm.root_frame
                        &&& final(self).procs@[i].wake_queue@ == p.wake_queue@.skip(n)
                        &&& final(self).procs@[i].on_cpu == Some(cpu)
                        &&& final(self).procs@[i].sched_in == now
                        &&& final(self).procs@[i].state == (if n > 0 {
                                ProcessState::Running
                            } else {
                                p.state
                            })
                        &&& out.context.frame == final(self).procs@[i].context.frame
                        &&& out.context.has_fpu_context
                                == final(self).procs@[i].context.has_fpu_context
                        &&& (n > 0 ==> final(self).procs@[i].context.frame
                                == (crate::x86::context::InterruptFrame {
                                    rax: 0u64,
                                    rdi: 0u64,
                                    rdx: n as u64,
                                    ..p.context.frame
                                }))
                        &&& (n == 0 ==> final(self).procs@[i].context == p.context)
                        &&& final(self).procs@[i].pid == pid
                        &&& final(self).procs@[i].vm == p.vm
                        &&& final(self).procs@.len() == old(self).procs@.len()
                        &&& forall|k: int| 0 <= k < old(self).procs@.len() && k != i
                                ==> final(self).procs@[k] == old(self).procs@[k]
                    }
                },
                None => {
                    &&& final(self).procs@ == old(self).procs@
                    &&& forall|k: int| 0 <= k < old(self).procs@.len()
                            ==> (#[trigger] old(self).procs@[k]).pid != pid
                },
            },
    {
        let idx = match self.find(pid) {
            Some(i) => i,
            None => { return None; }
        };
        let ghost orig = self.procs@;
        let mut p = placeholder_process();
        self.procs.set_and_swap(idx, &mut p);
        let (_base, cap) = p.context.frame.tasks_to_wake();
        let wake_buf_base = p.context.frame.rsi;
        let delivered = match p.state {
            ProcessState::Waiting => p.drain_tasks_to_wake(cap),
            _ => Vec::new(),
        };
        if delivered.len() > 0 {
            p.context.frame.set_syscall_return(
                crate::interface::SyscallReturn::Complete(0));
            p.context.frame.set_tasks_to_wake_count(delivered.len() as u64);
            p.unwait();
        }
        p.set_on_cpu(Some(cpu));
        p.sched_in = now;
        let context = clone_context(&p.context);
        let root_frame = p.vm.root_frame;
        self.procs.set_and_swap(idx, &mut p);
        proof {
            assert(self.procs@ =~= orig.update(idx as int, self.procs@[idx as int]));
        }
        Some(DispatchOutcome { context, root_frame, delivered, wake_buf_base })
    }
}

/// Take the record at `i` out of a table vector, leaving a throwaway
/// value in its place until `put_slot` restores it.
pub fn take_slot(procs: &mut Vec<Process>, i: usize) -> (p: Process)
    requires
        i < old(procs)@.len(),
    ensures
        p == old(procs)@[i as int],
        final(procs)@.len() == old(procs)@.len(),
        forall|k: int| 0 <= k < old(procs)@.len() && k != i
            ==> final(procs)@[k] == old(procs)@[k],
{
    let mut p = placeholder_process();
    procs.set_and_swap(i, &mut p);
    p
}

/// Put a record back into the slot `take_slot` emptied.
pub fn put_slot(procs: &mut Vec<Process>, i: usize, p: Process)
    requires
        i < old(procs)@.len(),
    ensures
        final(procs)@ == old(procs)@.update(i as int, p),
{
    let mut p = p;
    procs.set_and_swap(i, &mut p);
}

/// A throwaway record for take-and-put-back swaps of table slots.
fn placeholder_process() -> (r: Process)
{
    Process {
        context: Context::new_user(1),
        vm: AddressSpace { root_frame: 0, user: Vec::new(), kernel: Vec::new() },
        state: ProcessState::Running,
        exit_code: None,
        pid: 0,
        sched_in: 0,
        on_cpu: None,
        wake_queue: Vec::new(),
    }
}

/// An exact copy of a saved context.
fn clone_context(c: &Context) -> (r: Context)
    ensures
        r.frame == c.frame,
        r.has_fpu_context == c.has_fpu_context,
        r.fpu_context.0@ == c.fpu_context.0@,
{
    let mut fpu: Vec<u8> = Vec::new();
    let mut i: usize = 0;
    while i < c.fpu_context.0.len()
        invariant
            fpu@ =~= c.fpu_context.0@.take(i as int),
            i <= c.fpu_context.0@.len(),
        decreases c.fpu_context.0@.len() - i,
    {
        fpu.push(c.fpu_context.0[i]);
        proof {
            assert(fpu@ =~= c.fpu_context.0@.take(i + 1));
        }
        i = i + 1;
    }
    proof {
        assert(fpu@ =~= c.fpu_context.0@);
    }
    Context {
        frame: c.frame,
        fpu_context: crate::x86::context::FpuContext(fpu),
        has_fpu_context: c.has_fpu_context,
    }
}

/// Scheduler timeslice: a running process dispatched at tick `s` keeps
/// the CPU (`MayContinue`) at every tick before `s + TIMESLICE_TICKS`
/// and is preempted (`TimesUp`) at every tick from then on, so with k
/// runnable processes each receives exactly one timeslice before
/// yielding the CPU to the next.
pub proof fn lemma_timeslice(p: Process, now: u64)
    requires
        p.state == ProcessState::Running,
    ensures
        p.sched_in + TIMESLICE_TICKS > now
            ==> call_should_run(p, now) == ProcessDisposition::MayContinue,
        p.sched_in + TIMESLICE_TICKS <= now
            ==> call_should_run(p, now) == ProcessDisposition::TimesUp,
{
}

/// The decision `should_run` returns, as a spec value.
pub open spec fn call_should_run(p: Process, now: u64) -> ProcessDisposition {
    match p.state {
        ProcessState::Exited => ProcessDisposition::NeverAgain,
        ProcessState::Waiting => ProcessDisposition::NotNow,
        ProcessState::Running => if p.sched_in + TIMESLICE_TICKS > now {
            ProcessDisposition::MayContinue
        } else {
            ProcessDisposition::TimesUp
        },
    }
}

/// Wake delivery: if a wakeup of `tid` is scheduled while a process is
/// Waiting (`schedule_wakeup` appends `tid` to its pending list of `q`
/// and queues the pid), then its next dispatch with a buffer of more
/// than `q`'s length delivers the whole list, `tid` included, into the
/// tasks-to-wake buffer -- and by the contract of `dispatch` a non-empty
/// delivery also sets the saved result to Complete(0) and clears the
/// Waiting state.
pub proof fn lemma_wake_delivery(q: Seq<u64>, tid: u64, cap: u64)
    requires
        cap as int > q.len(),
    ensures
        ({
            let n = vstd::math::min(q.push(tid).len() as int, cap as int);
            &&& n == q.len() + 1
            &&& q.push(tid).take(n) == q.push(tid)
            &&& q.push(tid).take(n).contains(tid)
        }),
{
    let n = vstd::math::min(q.push(tid).len() as int, cap as int);
    assert(q.push(tid).take(n) =~= q.push(tid));
    assert(q.push(tid)[q.len() as int] == tid);
}

} // verus!
