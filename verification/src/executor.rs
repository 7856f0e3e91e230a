//! Per-CPU cooperative task executor: a table of pending kernel tasks and
//! a FIFO queue of task ids due to be polled.
//!
//! A task is one unit of deferred kernel work on behalf of a usermode
//! caller or the kernel itself.  Wakers carry `{cpu, id}` so wakes from
//! interrupt handlers or other CPUs route back to the CPU that polls the
//! task; tasks are never migrated.  Polling itself needs the whole kernel
//! state and lives with the kernel loop, which drains the queue through
//! `pop_to_poll` and steps each task's state machine.

use vstd::prelude::*;
use crate::interface::UserBuf;

verus! {

/// The routing record a waker carries: the CPU that owns the task and the
/// task's id on that CPU's executor.
#[derive(Copy, Clone, PartialEq, Eq, Structural, Debug)]
pub struct WakerData {
    pub cpu: usize,
    pub id: u64,
}

/// The state machine of one kernel task.
#[derive(Copy, Clone, PartialEq, Eq, Structural, Debug)]
pub enum KernelTask {
    /// Sleep until the owning CPU's tick counter passes `until`, then
    /// schedule a wakeup of (`pid`, `task_id`).
    SleepWake { until: u64, pid: u64, task_id: u64 },
    /// Await a datagram on socket `socket`; on arrival copy into `buf` of
    /// process `pid` and schedule a wakeup of (`pid`, `task_id`).
    SocketReadWake { socket: u64, pid: u64, task_id: u64, buf: UserBuf },
    /// Remove the process record of `pid` once no CPU holds it.
    RemoveProcess { pid: u64 },
}

/// One executor entry.
#[derive(Copy, Clone, PartialEq, Eq, Structural, Debug)]
pub struct Task {
    pub id: u64,
    pub kind: KernelTask,
}

/// One CPU's executor.
pub struct Executor {
    pub tasks: Vec<Task>,
    pub next_id: u64,
    pub tasks_to_poll: Vec<u64>,
}

impl Executor {
    /// Task ids are unique and were all assigned below `next_id`.
    pub open spec fn wf(self) -> bool {
        &&& forall|i: int, j: int| 0 <= i < j < self.tasks@.len()
                ==> (#[trigger] self.tasks@[i]).id != (#[trigger] self.tasks@[j]).id
        &&& forall|i: int| 0 <= i < self.tasks@.len()
                ==> (#[trigger] self.tasks@[i]).id < self.next_id
        &&& self.next_id >= 1
    }

    /// A fresh executor with no tasks and ids starting at 1.
    pub fn new() -> (r: Executor)
        ensures
            r.wf(),
            r.tasks@ == Seq::<Task>::empty(),
            r.tasks_to_poll@ == Seq::<u64>::empty(),
            r.next_id == 1,
    {
        Executor { tasks: Vec::new(), next_id: 1, tasks_to_poll: Vec::new() }
    }

    /// Register `kind` under the next id and enqueue it for polling.
    /// Returns the assigned id.
    pub fn spawn(&mut self, kind: KernelTask) -> (id: u64)
        requires
            old(self).wf(),
            old(self).next_id < u64::MAX,
        ensures
            final(self).wf(),
            id == old(self).next_id,
            final(self).next_id == old(self).next_id + 1,
            final(self).tasks@ == old(self).tasks@.push(Task { id, kind }),
            final(self).tasks_to_poll@ == old(self).tasks_to_poll@.push(id),
    {
        let id = self.next_id;
        self.next_id = self.next_id + 1;
        self.tasks.push(Task { id, kind });
        self.tasks_to_poll.push(id);
        id
    }

    /// Enqueue an already-registered id to be polled again (a wake).
    pub fn enqueue_poll(&mut self, id: u64)
        ensures
            final(self).tasks@ == old(self).tasks@,
            final(self).next_id == old(self).next_id,
            final(self).tasks_to_poll@ == old(self).tasks_to_poll@.push(id),
            old(self).wf() ==> final(self).wf(),
    {
        self.tasks_to_poll.push(id);
    }

    /// Dequeue the next id to poll, FIFO.
    pub fn pop_to_poll(&mut self) -> (r: Option<u64>)
        ensures
            final(self).tasks@ == old(self).tasks@,
            final(self).next_id == old(self).next_id,
            old(self).wf() ==> final(self).wf(),
            match r {
                Some(id) => {
                    &&& old(self).tasks_to_poll@.len() > 0
                    &&& id == old(self).tasks_to_poll@[0]
                    &&& final(self).tasks_to_poll@ == old(self).tasks_to_poll@.drop_first()
                },
                None => {
                    &&& old(self).tasks_to_poll@.len() == 0
                    &&& final(self).tasks_to_poll@ == old(self).tasks_to_poll@
                },
            },
    {
        if self.tasks_to_poll.len() > 0 {
            let id = self.tasks_to_poll.remove(0);
            proof {
                assert(final(self).tasks_to_poll@ =~= old(self).tasks_to_poll@.drop_first());
            }
            Some(id)
        } else {
            None
        }
    }

    /// The index of the task registered under `id`, if it is still here.
    pub fn find_task(&self, id: u64) -> (r: Option<usize>)
        ensures
            match r {
                Some(i) => i < self.tasks@.len() && self.tasks@[i as int].id == id,
                None => forall|k: int| 0 <= k < self.tasks@.len()
                    ==> (#[trigger] self.tasks@[k]).id != id,
            },
    {
        let mut i: usize = 0;
        while i < self.tasks.len()
            invariant
                0 <= i <= self.tasks@.len(),
                forall|k: int| 0 <= k < i ==> (#[trigger] self.tasks@[k]).id != id,
            decreases self.tasks@.len() - i,
        {
            if self.tasks[i].id == id {
                return Some(i);
            }
            i = i + 1;
        }
        None
    }

    /// Drop the task at `i` (it completed).
    pub fn remove_task(&mut self, i: usize) -> (t: Task)
        requires
            old(self).wf(),
            i < old(self).tasks@.len(),
        ensures
            final(self).wf(),
            t == old(self).tasks@[i as int],
            t.id < final(self).next_id,
            final(self).tasks@ == old(self).tasks@.remove(i as int),
            final(self).tasks_to_poll@ == old(self).tasks_to_poll@,
            final(self).next_id == old(self).next_id,
            forall|k: int| 0 <= k < final(self).tasks@.len()
                ==> (#[trigger] final(self).tasks@[k]).id != t.id,
    {
        let t = self.tasks.remove(i);
        proof {
            assert forall|k: int| 0 <= k < self.tasks@.len()
                implies (#[trigger] self.tasks@[k]).id != t.id by {
                if k < i {
                    assert(self.tasks@[k] == old(self).tasks@[k]);
                } else {
                    assert(self.tasks@[k] == old(self).tasks@[k + 1]);
                }
            }
        }
        t
    }

    /// Put a still-pending task back in the table.
    pub fn reinsert_task(&mut self, t: Task)
        requires
            old(self).wf(),
            t.id < old(self).next_id,
            forall|k: int| 0 <= k < old(self).tasks@.len()
                ==> (#[trigger] old(self).tasks@[k]).id != t.id,
        ensures
            final(self).wf(),
            final(self).tasks@ == old(self).tasks@.push(t),
            final(self).tasks_to_poll@ == old(self).tasks_to_poll@,
            final(self).next_id == old(self).next_id,
    {
        self.tasks.push(t);
        proof {
            assert forall|a: int, b: int| 0 <= a < b < self.tasks@.len()
                implies (#[trigger] self.tasks@[a]).id
                    != (#[trigger] self.tasks@[b]).id by {
                if b == self.tasks@.len() - 1 {
                    assert(self.tasks@[a] == old(self).tasks@[a]);
                }
            }
        }
    }
}

/// Register a task on an executor and queue it for its first poll.
pub fn spawn(executor: &mut Executor, kind: KernelTask) -> (id: u64)
    requires
        old(executor).wf(),
        old(executor).next_id < u64::MAX,
    ensures
        final(executor).wf(),
        id == old(executor).next_id,
        final(executor).tasks@ == old(executor).tasks@.push(Task { id, kind }),
        final(executor).tasks_to_poll@ == old(executor).tasks_to_poll@.push(id),
{
    executor.spawn(kind)
}

/// The task that sleeps `duration_us` microseconds from tick `now` and
/// then schedules a wakeup of (`pid`, `task_id`).
pub fn sleep(now: u64, duration_us: u64, pid: u64, task_id: u64) -> (t: KernelTask)
    requires
        now + duration_us / 1000 <= u64::MAX,
    ensures
        t == (KernelTask::SleepWake { until: (now + duration_us / 1000) as u64, pid, task_id }),
{
    KernelTask::SleepWake { until: now + duration_us / 1000, pid, task_id }
}

} // verus!
