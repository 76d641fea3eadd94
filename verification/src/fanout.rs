//! The per-consumer-cursor fan-out ring: an alternative transport in which
//! one producer counter hands out slots and every consumer walks the ring at
//! its own pace.
//!
//! A slot, once claimed, is overwritten in place; a consumer that falls more
//! than one lap behind reads newer data, by design. The shared counters and
//! the sleep-and-retry loop belong to the callers; claiming a slot, filling
//! it, and advancing a consumer's cursor are decided here.

use vstd::prelude::*;
use vstd::slice::slice_to_vec;

verus! {

/// Largest message a slot can carry.
pub const MAX_MSG_SIZE: usize = 1024 * 1024;

/// Number of slots in the fan-out ring.
pub const RING_SIZE: usize = 8;

/// Number of consumer cursors kept in the region.
pub const MAX_CONSUMERS: usize = 4;

/// One slot of the fan-out ring: a message and the identifier it was
/// stamped with when its producer claimed the slot.
pub struct MsgSlot {
    /// Identifier drawn from the region's shared counter.
    pub msg_id: u64,
    /// Length of the message held.
    pub len: usize,
    /// The message bytes themselves.
    pub data: Vec<u8>,
}

impl MsgSlot {
    /// The declared length is the held length, within the slot's bound.
    pub open spec fn wf(self) -> bool {
        &&& self.len == self.data@.len()
        &&& self.len <= MAX_MSG_SIZE
    }
}

/// The fan-out region: a producer counter, a message-identifier counter,
/// one cursor per consumer, and the ring of slots.
pub struct ShmLayout {
    /// Count of messages ever published; the next slot claimed is this
    /// count taken modulo [`RING_SIZE`].
    pub write_pos: usize,
    /// The identifier the next published message is stamped with.
    pub next_msg_id: u64,
    /// How many messages each consumer has taken so far.
    pub consumer_pos: Vec<usize>,
    /// The slots.
    pub ring: Vec<MsgSlot>,
}

impl ShmLayout {
    /// Well-formedness: full complement of cursors and slots, sound slots,
    /// and no consumer ahead of the producer.
    pub open spec fn wf(self) -> bool {
        &&& self.consumer_pos@.len() == MAX_CONSUMERS
        &&& self.ring@.len() == RING_SIZE
        &&& forall|i: int| 0 <= i < RING_SIZE ==> self.ring@[i].wf()
        &&& forall|i: int| 0 <= i < MAX_CONSUMERS ==> self.consumer_pos@[i] <= self.write_pos
    }

    /// The one-time zeroing of a fresh region: counters at zero, every
    /// cursor at zero, every slot empty.
    pub fn new() -> (r: ShmLayout)
        ensures
            r.wf(),
            r.write_pos == 0,
            r.next_msg_id == 0,
            forall|i: int| 0 <= i < MAX_CONSUMERS ==> r.consumer_pos@[i] == 0,
            forall|i: int|
                0 <= i < RING_SIZE ==> r.ring@[i].msg_id == 0 && r.ring@[i].len == 0,
    {
        let mut consumer_pos: Vec<usize> = Vec::new();
        let mut i: usize = 0;
        while i < MAX_CONSUMERS
            invariant
                i <= MAX_CONSUMERS,
                consumer_pos@.len() == i,
                forall|j: int| 0 <= j < i ==> consumer_pos@[j] == 0,
            decreases MAX_CONSUMERS - i,
        {
            consumer_pos.push(0);
            i = i + 1;
        }
        let mut ring: Vec<MsgSlot> = Vec::new();
        let mut k: usize = 0;
        while k < RING_SIZE
            invariant
                k <= RING_SIZE,
                ring@.len() == k,
                forall|j: int|
                    0 <= j < k ==> ring@[j].wf() && ring@[j].msg_id == 0 && ring@[j].len == 0,
            decreases RING_SIZE - k,
        {
            ring.push(MsgSlot { msg_id: 0, len: 0, data: Vec::new() });
            k = k + 1;
        }
        ShmLayout { write_pos: 0, next_msg_id: 0, consumer_pos, ring }
    }

    /// Publish one message: claim the next slot in line, fill it, and stamp
    /// it with the next identifier. Returns the stamp and the slot taken.
    ///
    /// No admission control holds a producer back here: a slot is reused as
    /// soon as the counter comes back around.
    pub fn publish(&mut self, msg: Vec<u8>) -> (r: (u64, usize))
        requires
            old(self).wf(),
            msg@.len() <= MAX_MSG_SIZE,
            old(self).write_pos < usize::MAX,
            old(self).next_msg_id < u64::MAX,
        ensures
            final(self).wf(),
            final(self).write_pos == old(self).write_pos + 1,
            final(self).next_msg_id == old(self).next_msg_id + 1,
            final(self).consumer_pos@ == old(self).consumer_pos@,
            r.0 == old(self).next_msg_id,
            r.1 == old(self).write_pos as int % RING_SIZE as int,
            ({
                let pos = old(self).write_pos as int % RING_SIZE as int;
                &&& final(self).ring@[pos].msg_id == old(self).next_msg_id
                &&& final(self).ring@[pos].len == msg@.len()
                &&& final(self).ring@[pos].data@ == msg@
                &&& forall|i: int|
                    0 <= i < RING_SIZE && i != pos ==> final(self).ring@[i] == old(self).ring@[i]
            }),
    {
        let pos = self.write_pos % RING_SIZE;
        let id = self.next_msg_id;
        let len = msg.len();
        self.ring.set(pos, MsgSlot { msg_id: id, len: len, data: msg });
        self.write_pos = self.write_pos + 1;
        self.next_msg_id = self.next_msg_id + 1;
        (id, pos)
    }

    /// One consumer's attempt to take its next message. Caught up with the
    /// producer, it gets nothing and the region stands as it was; otherwise
    /// it copies the slot its cursor points at and steps the cursor.
    pub fn poll(&mut self, id: usize) -> (r: Option<(u64, Vec<u8>)>)
        requires
            old(self).wf(),
            id < MAX_CONSUMERS,
        ensures
            final(self).wf(),
            old(self).consumer_pos@[id as int] >= old(self).write_pos ==> r is None && *final(self)
                == *old(self),
            old(self).consumer_pos@[id as int] < old(self).write_pos ==> ({
                let pos = old(self).consumer_pos@[id as int] as int % RING_SIZE as int;
                &&& r matches Some(m) && m.0 == old(self).ring@[pos].msg_id && m.1@ == old(
                    self,
                ).ring@[pos].data@
                &&& final(self).consumer_pos@ == old(self).consumer_pos@.update(
                    id as int,
                    (old(self).consumer_pos@[id as int] + 1) as usize,
                )
                &&& final(self).write_pos == old(self).write_pos
                &&& final(self).next_msg_id == old(self).next_msg_id
                &&& final(self).ring@ == old(self).ring@
            }),
    {
        let read_pos = self.consumer_pos[id];
        if read_pos >= self.write_pos {
            return None;
        }
        let pos = read_pos % RING_SIZE;
        let msg_id = self.ring[pos].msg_id;
        let data = slice_to_vec(self.ring[pos].data.as_slice());
        self.consumer_pos.set(id, read_pos + 1);
        Some((msg_id, data))
    }
}

} // verus!
