//! Datagram sockets: lightweight mailboxes a usermode task can await.
//!
//! Each socket keeps a FIFO of received datagrams and a FIFO of wakers
//! registered by readers that found it empty.  A write enqueues one
//! packet and hands back every parked waker; delivery of the wakes is the
//! executor's business, so the caller routes them.

use vstd::prelude::*;
use vstd::pervasive::VecAdditionalExecFns;
use crate::executor::WakerData;
use crate::net::packet::Packet;

verus! {

/// One datagram mailbox.
pub struct Socket {
    pub id: u64,
    pub dgs: Vec<Packet>,
    pub futures: Vec<WakerData>,
}

/// The datagrams of a socket, as byte sequences, oldest first.
pub open spec fn socket_data(s: Socket) -> Seq<Seq<u8>> {
    s.dgs@.map_values(|p: Packet| p.data@)
}

/// The global socket map.
pub struct SocketTable {
    pub sockets: Vec<Socket>,
    pub next_id: u64,
}

/// What one poll of a socket read came to.
pub enum ReadPoll {
    /// A datagram was present: its first `min(packet len, buffer len)`
    /// bytes, ready to be copied to the reader.
    Ready(Vec<u8>),
    /// The socket was empty; the waker is parked on it.
    Parked,
    /// No such socket exists (it was closed, or never was).
    NoSocket,
}

impl SocketTable {
    /// Socket ids are unique and below `next_id`.
    pub open spec fn wf(self) -> bool {
        &&& forall|i: int, j: int| 0 <= i < j < self.sockets@.len()
                ==> (#[trigger] self.sockets@[i]).id != (#[trigger] self.sockets@[j]).id
        &&& forall|i: int| 0 <= i < self.sockets@.len()
                ==> (#[trigger] self.sockets@[i]).id < self.next_id
        &&& self.next_id >= 1
    }

    /// An empty map; ids start at 1.
    pub fn new() -> (r: SocketTable)
        ensures
            r.wf(),
            r.sockets@ == Seq::<Socket>::empty(),
            r.next_id == 1,
    {
        SocketTable { sockets: Vec::new(), next_id: 1 }
    }

    /// The index of the socket with `id`, if it exists.
    pub fn find(&self, id: u64) -> (r: Option<usize>)
        ensures
            match r {
                Some(i) => i < self.sockets@.len() && self.sockets@[i as int].id == id,
                None => forall|k: int| 0 <= k < self.sockets@.len()
                    ==> (#[trigger] self.sockets@[k]).id != id,
            },
    {
        let mut i: usize = 0;
        while i < self.sockets.len()
            invariant
                0 <= i <= self.sockets@.len(),
                forall|k: int| 0 <= k < i ==> (#[trigger] self.sockets@[k]).id != id,
            decreases self.sockets@.len() - i,
        {
            if self.sockets[i].id == id {
                return Some(i);
            }
            i = i + 1;
        }
        None
    }

    /// Allocate an id and insert a fresh empty socket under it.
    pub fn create(&mut self) -> (id: u64)
        requires
            old(self).wf(),
            old(self).next_id < u64::MAX,
        ensures
            final(self).wf(),
            id == old(self).next_id,
            final(self).next_id == old(self).next_id + 1,
            final(self).sockets@.len() == old(self).sockets@.len() + 1,
            final(self).sockets@.last().id == id,
            socket_data(final(self).sockets@.last()) == Seq::<Seq<u8>>::empty(),
            final(self).sockets@.last().futures@ == Seq::<WakerData>::empty(),
            forall|k: int| 0 <= k < old(self).sockets@.len()
                ==> final(self).sockets@[k] == old(self).sockets@[k],
    {
        let id = self.next_id;
        self.next_id = self.next_id + 1;
        self.sockets.push(Socket { id, dgs: Vec::new(), futures: Vec::new() });
        proof {
            assert(socket_data(self.sockets@.last())
                =~= Seq::<Seq<u8>>::empty());
        }
        id
    }

    /// Deliver `bytes` to socket `id`: append one datagram holding a copy
    /// of them, and hand back every parked waker, oldest first, with the
    /// byte count.  `None` exactly when no such socket exists, changing
    /// nothing.
    pub fn write(&mut self, id: u64, bytes: &[u8]) -> (r: Option<(u64, Vec<WakerData>)>)
        requires
            old(self).wf(),
            bytes@.len() <= u64::MAX,
        ensures
            final(self).wf(),
            final(self).next_id == old(self).next_id,
            match r {
                Some((count, woken)) => {
                    &&& count == bytes@.len()
                    &&& exists|i: int| {
                        &&& 0 <= i < old(self).sockets@.len()
                        &&& (#[trigger] old(self).sockets@[i]).id == id
                        &&& woken@ == old(self).sockets@[i].futures@
                        &&& final(self).sockets@.len() == old(self).sockets@.len()
                        &&& final(self).sockets@[i].id == id
                        &&& socket_data(final(self).sockets@[i])
                                == socket_data(old(self).sockets@[i]).push(bytes@)
                        &&& final(self).sockets@[i].futures@ == Seq::<WakerData>::empty()
                        &&& forall|k: int| 0 <= k < old(self).sockets@.len() && k != i
                                ==> final(self).sockets@[k] == old(self).sockets@[k]
                    }
                },
                None => {
                    &&& final(self).sockets@ == old(self).sockets@
                    &&& forall|k: int| 0 <= k < old(self).sockets@.len()
                            ==> (#[trigger] old(self).sockets@[k]).id != id
                },
            },
    {
        let idx = match self.find(id) {
            Some(i) => i,
            None => { return None; }
        };
        let ghost orig = self.sockets@;
        let mut s = Socket { id: 0, dgs: Vec::new(), futures: Vec::new() };
        self.sockets.set_and_swap(idx, &mut s);
        let Socket { id: sid, dgs: mut queue, futures: woken } = s;
        queue.push(Packet::new(bytes));
        let count = bytes.len() as u64;
        let mut s = Socket { id: sid, dgs: queue, futures: Vec::new() };
        self.sockets.set_and_swap(idx, &mut s);
        proof {
            let i = idx as int;
            assert(self.sockets@ =~= orig.update(i, self.sockets@[i]));
            assert(socket_data(self.sockets@[i])
                =~= socket_data(orig[i]).push(bytes@));
        }
        Some((count, woken))
    }

    /// One poll of a read on socket `id` for a buffer of `buf_len` bytes.
    /// With a datagram present, the oldest is removed and its first
    /// `min(len, buf_len)` bytes come back byte-for-byte; on an empty
    /// socket `waker` is parked, to be handed out by the write that next
    /// delivers data.
    pub fn read(&mut self, id: u64, buf_len: u64, waker: WakerData) -> (r: ReadPoll)
        requires
            old(self).wf(),
        ensures
            final(self).wf(),
            final(self).next_id == old(self).next_id,
            match r {
                ReadPoll::Ready(data) => exists|i: int| {
                    &&& 0 <= i < old(self).sockets@.len()
                    &&& (#[trigger] old(self).sockets@[i]).id == id
                    &&& socket_data(old(self).sockets@[i]).len() > 0
                    &&& data@ == socket_data(old(self).sockets@[i])[0].take(
                            vstd::math::min(
                                socket_data(old(self).sockets@[i])[0].len() as int,
                                buf_len as int,
                            ))
                    &&& final(self).sockets@.len() == old(self).sockets@.len()
                    &&& final(self).sockets@[i].id == id
                    &&& socket_data(final(self).sockets@[i])
                            == socket_data(old(self).sockets@[i]).drop_first()
                    &&& final(self).sockets@[i].futures@ == old(self).sockets@[i].futures@
                    &&& forall|k: int| 0 <= k < old(self).sockets@.len() && k != i
                            ==> final(self).sockets@[k] == old(self).sockets@[k]
                },
                ReadPoll::Parked => exists|i: int| {
                    &&& 0 <= i < old(self).sockets@.len()
                    &&& (#[trigger] old(self).sockets@[i]).id == id
                    &&& socket_data(old(self).sockets@[i]).len() == 0
                    &&& final(self).sockets@.len() == old(self).sockets@.len()
                    &&& final(self).sockets@[i].id == id
                    &&& socket_data(final(self).sockets@[i])
                            == socket_data(old(self).sockets@[i])
                    &&& final(self).sockets@[i].futures@
                            == old(self).sockets@[i].futures@.push(waker)
                    &&& forall|k: int| 0 <= k < old(self).sockets@.len() && k != i
                            ==> final(self).sockets@[k] == old(self).sockets@[k]
                },
                ReadPoll::NoSocket => {
                    &&& final(self).sockets@ == old(self).sockets@
                    &&& forall|k: int| 0 <= k < old(self).sockets@.len()
                            ==> (#[trigger] old(self).sockets@[k]).id != id
                },
            },
    {
        let idx = match self.find(id) {
            Some(i) => i,
            None => { return ReadPoll::NoSocket; }
        };
        let ghost orig = self.sockets@;
        let mut s = Socket { id: 0, dgs: Vec::new(), futures: Vec::new() };
        self.sockets.set_and_swap(idx, &mut s);
        if s.dgs.len() > 0 {
            let packet = s.dgs.remove(0);
            let count: usize = if packet.data.len() as u64 > buf_len {
                buf_len as usize
            } else {
                packet.data.len()
            };
            let mut data: Vec<u8> = Vec::new();
            let mut b: usize = 0;
            while b < count
                invariant
                    b <= count,
                    count <= packet.data@.len(),
                    data@ =~= packet.data@.take(b as int),
                decreases count - b,
            {
                data.push(packet.data[b]);
                proof {
                    assert(data@ =~= packet.data@.take(b + 1));
                }
                b = b + 1;
            }
            self.sockets.set_and_swap(idx, &mut s);
            proof {
                let i = idx as int;
                assert(self.sockets@ =~= orig.update(i, self.sockets@[i]));
                assert(socket_data(orig[i])[0] == orig[i].dgs@[0].data@);
                assert(socket_data(self.sockets@[i])
                    =~= socket_data(orig[i]).drop_first());
                assert(data@ =~= socket_data(orig[i])[0].take(
                    vstd::math::min(socket_data(orig[i])[0].len() as int, buf_len as int)));
            }
            ReadPoll::Ready(data)
        } else {
            s.futures.push(waker);
            self.sockets.set_and_swap(idx, &mut s);
            proof {
                let i = idx as int;
                assert(self.sockets@ =~= orig.update(i, self.sockets@[i]));
                assert(socket_data(self.sockets@[i]) =~= socket_data(orig[i]));
                assert(socket_data(orig[i]).len() == 0);
            }
            ReadPoll::Parked
        }
    }

    /// Remove socket `id`.  Returns whether it existed.
    pub fn close(&mut self, id: u64) -> (r: bool)
        requires
            old(self).wf(),
        ensures
            final(self).wf(),
            final(self).next_id == old(self).next_id,
            r ==> exists|i: int| {
                &&& 0 <= i < old(self).sockets@.len()
                &&& (#[trigger] old(self).sockets@[i]).id == id
                &&& final(self).sockets@ == old(self).sockets@.remove(i)
            },
            !r ==> final(self).sockets@ == old(self).sockets@
                && forall|k: int| 0 <= k < old(self).sockets@.len()
                    ==> (#[trigger] old(self).sockets@[k]).id != id,
    {
        match self.find(id) {
            Some(i) => {
                self.sockets.remove(i);
                true
            }
            None => false,
        }
    }
}

/// Socket FIFO: writing p1 then p2 to a socket and then completing two
/// reads yields p1 first and p2 second, whatever the buffer sizes, since
/// a write appends to the datagram queue and a read removes its head.
pub proof fn lemma_socket_fifo(q: Seq<Seq<u8>>, p1: Seq<u8>, p2: Seq<u8>)
    requires
        q.len() == 0,
    ensures
        q.push(p1).push(p2)[0] == p1,
        q.push(p1).push(p2).drop_first()[0] == p2,
        q.push(p1).push(p2).drop_first().drop_first().len() == 0,
{
    assert(q.push(p1).push(p2).drop_first() =~= seq![p2]);
}

} // verus!
