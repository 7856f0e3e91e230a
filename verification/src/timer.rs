//! Per-CPU timer wheel: an ordered table of `(deadline tick, sequence)`
//! keys, each routing a wake to a task when the tick counter passes the
//! deadline.  Events sharing a deadline fire in insertion order, which the
//! strictly increasing sequence numbers record.

use vstd::prelude::*;
use crate::executor::WakerData;

verus! {

/// One pending timer event.
#[derive(Copy, Clone, PartialEq, Eq, Structural, Debug)]
pub struct TimerEvent {
    pub time: u64,
    pub seq: u64,
    pub waker: WakerData,
}

/// Strict ordering of events by `(time, seq)`.
pub open spec fn event_lt(a: TimerEvent, b: TimerEvent) -> bool {
    a.time < b.time || (a.time == b.time && a.seq < b.seq)
}

/// The sorted position at which an event with deadline `time` (and a
/// sequence above every present one) is inserted: after every event whose
/// deadline is not later.
pub open spec fn insert_pos(events: Seq<TimerEvent>, time: u64) -> int
    decreases events.len(),
{
    if events.len() == 0 {
        0
    } else if events[0].time <= time {
        1 + insert_pos(events.drop_first(), time)
    } else {
        0
    }
}

/// `insert_pos` is a position within the table.
pub proof fn lemma_insert_pos_bounds(events: Seq<TimerEvent>, time: u64)
    ensures
        0 <= insert_pos(events, time) <= events.len(),
    decreases events.len(),
{
    if events.len() > 0 {
        lemma_insert_pos_bounds(events.drop_first(), time);
    }
}

/// One CPU's timer wheel.
pub struct Timer {
    pub ticks: u64,
    pub next_seq: u64,
    pub events: Vec<TimerEvent>,
}

impl Timer {
    /// Events are strictly sorted by `(time, seq)` and every present
    /// sequence number was assigned below `next_seq`.
    pub open spec fn wf(self) -> bool {
        &&& forall|i: int, j: int| 0 <= i < j < self.events@.len()
                ==> event_lt(#[trigger] self.events@[i], #[trigger] self.events@[j])
        &&& forall|i: int| 0 <= i < self.events@.len()
                ==> (#[trigger] self.events@[i]).seq < self.next_seq
    }

    /// A fresh wheel at tick zero.
    pub fn new() -> (r: Timer)
        ensures
            r.wf(),
            r.ticks == 0,
            r.events@ == Seq::<TimerEvent>::empty(),
    {
        Timer { ticks: 0, next_seq: 0, events: Vec::new() }
    }

    /// The current tick count.
    pub fn ticks(&self) -> (r: u64)
        ensures r == self.ticks,
    {
        self.ticks
    }

    /// Register `waker` to fire once the tick counter passes `time` (an
    /// absolute deadline).  The event goes after every event with an
    /// earlier or equal deadline and before every later one.
    pub fn raw_insert(&mut self, time: u64, waker: WakerData)
        requires
            old(self).wf(),
            old(self).next_seq < u64::MAX,
        ensures
            final(self).wf(),
            final(self).ticks == old(self).ticks,
            final(self).events@ == old(self).events@.insert(
                insert_pos(old(self).events@, time),
                TimerEvent { time, seq: old(self).next_seq, waker },
            ),
            final(self).next_seq == old(self).next_seq + 1,
    {
        let seq = self.next_seq;
        self.next_seq = self.next_seq + 1;
        let ev = TimerEvent { time, seq, waker };
        let ghost orig = self.events@;
        let mut i: usize = 0;
        proof {
            assert(orig.skip(0) =~= orig);
            lemma_insert_pos_bounds(orig, time);
        }
        while i < self.events.len() && self.events[i].time <= time
            invariant
                0 <= i <= self.events@.len(),
                self.events@ == orig,
                forall|k: int| 0 <= k < i ==> (#[trigger] orig[k]).time <= time,
                insert_pos(orig, time) >= i,
                insert_pos(orig.skip(i as int), time) + i == insert_pos(orig, time),
            decreases self.events@.len() - i,
        {
            proof {
                assert(orig.skip(i as int)[0] == orig[i as int]);
                assert(orig.skip(i as int).drop_first() =~= orig.skip(i as int + 1));
                lemma_insert_pos_bounds(orig.skip(i as int + 1), time);
            }
            i = i + 1;
        }
        proof {
            if i < orig.len() {
                assert(orig.skip(i as int)[0] == orig[i as int]);
            }
            assert(insert_pos(orig.skip(i as int), time) == 0);
            assert(insert_pos(orig, time) == i);
        }
        self.events.insert(i, ev);
        proof {
            let pos = i as int;
            let newv = self.events@;
            assert(newv == orig.insert(pos, ev));
            assert forall|a: int, b: int| 0 <= a < b < newv.len()
                implies event_lt(#[trigger] newv[a], #[trigger] newv[b]) by {
                if a < pos && b == pos {
                    assert(newv[a] == orig[a]);
                    assert(orig[a].time <= time);
                    assert(orig[a].seq < seq);
                } else if a == pos && b > pos {
                    assert(newv[b] == orig[b - 1]);
                    assert(orig[b - 1].time > time);
                } else if a < pos && b < pos {
                    assert(newv[a] == orig[a] && newv[b] == orig[b]);
                } else if a > pos && b > pos {
                    assert(newv[a] == orig[a - 1] && newv[b] == orig[b - 1]);
                } else {
                    assert(a < pos && b > pos);
                    assert(newv[a] == orig[a] && newv[b] == orig[b - 1]);
                }
            }
        }
    }

    /// The fixed duration-to-tick rate: one tick per millisecond.
    pub fn duration_to_ticks(duration_us: u64) -> (r: u64)
        ensures r == duration_us / 1000,
    {
        duration_us / 1000
    }

    /// Register `waker` to fire after `duration_us` microseconds from now.
    pub fn insert(&mut self, duration_us: u64, waker: WakerData)
        requires
            old(self).wf(),
            old(self).next_seq < u64::MAX,
            old(self).ticks + duration_us / 1000 <= u64::MAX,
        ensures
            final(self).wf(),
            final(self).ticks == old(self).ticks,
            final(self).events@ == old(self).events@.insert(
                insert_pos(old(self).events@, (old(self).ticks + duration_us / 1000) as u64),
                TimerEvent {
                    time: (old(self).ticks + duration_us / 1000) as u64,
                    seq: old(self).next_seq,
                    waker,
                },
            ),
    {
        let time = self.ticks + Self::duration_to_ticks(duration_us);
        self.raw_insert(time, waker);
    }

    /// Advance the clock one tick and remove every event whose deadline
    /// has passed: exactly the due prefix of the sorted table, returned in
    /// order, earliest key first.
    pub fn tick(&mut self) -> (fired: Vec<WakerData>)
        requires
            old(self).wf(),
            old(self).ticks < u64::MAX,
        ensures
            final(self).wf(),
            final(self).ticks == old(self).ticks + 1,
            final(self).next_seq == old(self).next_seq,
            exists|cut: int| {
                &&& 0 <= cut <= old(self).events@.len()
                &&& (forall|k: int| 0 <= k < cut
                        ==> (#[trigger] old(self).events@[k]).time <= old(self).ticks + 1)
                &&& (forall|k: int| cut <= k < old(self).events@.len()
                        ==> (#[trigger] old(self).events@[k]).time > old(self).ticks + 1)
                &&& fired@ == old(self).events@.take(cut).map_values(|e: TimerEvent| e.waker)
                &&& final(self).events@ == old(self).events@.skip(cut)
            },
    {
        self.ticks = self.ticks + 1;
        let now = self.ticks;
        let ghost orig = self.events@;
        let mut fired: Vec<WakerData> = Vec::new();
        let ghost cut: int = 0;
        while self.events.len() > 0 && self.events[0].time <= now
            invariant
                0 <= cut <= orig.len(),
                self.ticks == now,
                self.next_seq == old(self).next_seq,
                self.events@ =~= orig.skip(cut),
                forall|k: int| 0 <= k < cut ==> (#[trigger] orig[k]).time <= now,
                fired@ =~= orig.take(cut).map_values(|e: TimerEvent| e.waker),
                forall|i: int, j: int| 0 <= i < j < orig.len()
                    ==> event_lt(#[trigger] orig[i], #[trigger] orig[j]),
                forall|i: int| 0 <= i < orig.len()
                    ==> (#[trigger] orig[i]).seq < self.next_seq,
            decreases self.events@.len(),
        {
            let ev = self.events.remove(0);
            fired.push(ev.waker);
            proof {
                assert(ev == orig[cut]);
                assert(orig.skip(cut).drop_first() =~= orig.skip(cut + 1));
                assert(orig.take(cut + 1).drop_last() =~= orig.take(cut));
                assert(orig.take(cut + 1).map_values(|e: TimerEvent| e.waker)
                    =~= orig.take(cut).map_values(|e: TimerEvent| e.waker).push(ev.waker));
                cut = cut + 1;
            }
        }
        proof {
            assert forall|k: int| cut <= k < orig.len()
                implies (#[trigger] orig[k]).time > now by {
                if self.events@.len() > 0 {
                    assert(orig.skip(cut)[0] == orig[cut]);
                    if k > cut {
                        assert(event_lt(orig[cut], orig[k]));
                    }
                } else {
                    assert(orig.skip(cut).len() == 0);
                }
            }
        }
        fired
    }
}

/// The current tick count of a timer (the kernel's timestamp unit).
pub fn timestamp(timer: &Timer) -> (r: u64)
    ensures r == timer.ticks,
{
    timer.ticks()
}

/// The fixed duration-to-tick conversion.
pub fn ticks_for(duration_us: u64) -> (r: u64)
    ensures r == duration_us / 1000,
{
    Timer::duration_to_ticks(duration_us)
}

/// Register a waker to fire after a relative duration on this timer.
pub fn insert(timer: &mut Timer, duration_us: u64, waker: WakerData)
    requires
        old(timer).wf(),
        old(timer).next_seq < u64::MAX,
        old(timer).ticks + duration_us / 1000 <= u64::MAX,
    ensures
        final(timer).wf(),
        final(timer).ticks == old(timer).ticks,
        final(timer).events@ == old(timer).events@.insert(
            insert_pos(old(timer).events@, (old(timer).ticks + duration_us / 1000) as u64),
            TimerEvent {
                time: (old(timer).ticks + duration_us / 1000) as u64,
                seq: old(timer).next_seq,
                waker,
            },
        ),
{
    timer.insert(duration_us, waker);
}

/// Register a waker to fire at an absolute deadline on this timer.
pub fn insert_at(timer: &mut Timer, time: u64, waker: WakerData)
    requires
        old(timer).wf(),
        old(timer).next_seq < u64::MAX,
    ensures
        final(timer).wf(),
        final(timer).ticks == old(timer).ticks,
        final(timer).events@ == old(timer).events@.insert(
            insert_pos(old(timer).events@, time),
            TimerEvent { time, seq: old(timer).next_seq, waker },
        ),
{
    timer.raw_insert(time, waker);
}

/// Sleep ordering: of two pending events with distinct deadlines, the
/// earlier deadline stands earlier in the wheel, so its waker is delivered
/// no later than the other's, whatever order they were registered in.
pub proof fn lemma_sleep_ordering(t: Timer, i: int, j: int)
    requires
        t.wf(),
        0 <= i < t.events@.len(),
        0 <= j < t.events@.len(),
        t.events@[i].time < t.events@[j].time,
    ensures
        i < j,
{
    if i == j {
        assert(false);
    } else if j < i {
        assert(event_lt(t.events@[j], t.events@[i]));
        assert(false);
    }
}

} // verus!
