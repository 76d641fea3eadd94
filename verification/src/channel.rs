//! The message channel over one shared region.
//!
//! A `Channel` combines the circular byte store, the frame codec and the
//! gate's decision rule into the transport's critical section: everything a
//! producer or consumer does between acquiring and releasing the region's
//! mutex. Blocking itself belongs to the callers that own the mutex and the
//! condition variable; where they would park, the operations here return
//! [`ChannelError::WouldBlock`] and leave the region untouched, so a caller
//! re-runs the whole operation after every wakeup.

use vstd::prelude::*;

use crate::frame::{
    decode_header, encode_header, frame_len, frame_of, frame_payload, frame_rest, has_frame,
    lemma_parse_frames_nonempty, lemma_well_framed_append, parse_frames, well_framed,
    HEADER_BYTES,
};
use crate::gate::{gate_poll, GateVerdict};
use crate::ring::{lemma_wrap_compose, wrap, RingBuffer};

verus! {

/// The distinct outcomes of a blocking operation, besides a framed message.
#[derive(Clone, Copy, Debug, PartialEq, Eq, Structural)]
pub enum ChannelError {
    /// The payload plus its header exceeds the usable capacity. Fatal to
    /// the call: no cursor moves, and retrying the same payload cannot
    /// succeed.
    OversizeMessage,
    /// The space or data predicate is unmet while the region is open. A
    /// caller that can block parks on the condition variable and retries;
    /// nothing was changed.
    WouldBlock,
    /// Shutdown was signalled while the predicate was still unmet. The
    /// designed escape from an unbounded wait; nothing was changed.
    ShutdownObserved,
}

/// One endpoint's view of the shared region: the ring of framed bytes and
/// the shutdown flag.
pub struct Channel {
    ring: RingBuffer,
    closed: bool,
}

impl Channel {
    /// Capacity `cap` of the underlying ring.
    pub closed spec fn cap(self) -> int {
        self.ring.cap()
    }

    /// The framed bytes standing in the ring, oldest first.
    pub closed spec fn avail(self) -> Seq<u8> {
        self.ring.avail()
    }

    /// The shutdown flag.
    pub closed spec fn closed_flag(self) -> bool {
        self.closed
    }

    /// The ring's write cursor.
    pub closed spec fn head_cursor(self) -> int {
        self.ring.head_cursor()
    }

    /// The ring's read cursor.
    pub closed spec fn tail_cursor(self) -> int {
        self.ring.tail_cursor()
    }

    /// Well-formedness: a sound ring, roomy enough to frame at least the
    /// empty payload, holding whole frames and nothing else.
    pub closed spec fn wf(self) -> bool {
        &&& self.ring.wf()
        &&& self.ring.cap() > HEADER_BYTES
        &&& well_framed(self.ring.avail())
    }

    /// The queue of messages standing in the region, oldest first: what
    /// its framed bytes parse to.
    pub open spec fn messages(self) -> Seq<Seq<u8>> {
        parse_frames(self.avail())
    }

    /// Free space under the ring's `cap - 1` budget.
    pub open spec fn free(self) -> int {
        self.cap() - 1 - self.avail().len()
    }

    /// The longest payload the region can ever carry: header, payload and
    /// the ring's reserved byte must fit together.
    pub open spec fn max_payload(self) -> int {
        self.cap() - HEADER_BYTES - 1
    }

    /// A freshly initialized region: both cursors at zero, shutdown flag
    /// clear. This is the one-time setup that the first opener of a region
    /// performs; later openers attach without touching existing state.
    pub fn new(capacity: usize) -> (c: Channel)
        requires
            HEADER_BYTES < capacity <= u32::MAX,
        ensures
            c.wf(),
            c.cap() == capacity,
            c.avail() == Seq::<u8>::empty(),
            c.messages() == Seq::<Seq<u8>>::empty(),
            !c.closed_flag(),
            c.head_cursor() == 0,
            c.tail_cursor() == 0,
    {
        let c = Channel { ring: RingBuffer::with_capacity(capacity), closed: false };
        proof {
            assert(well_framed(c.avail()));
            assert(c.messages() =~~= Seq::<Seq<u8>>::empty());
        }
        c
    }

    /// Write one message: frame it and lay it into the ring, advancing the
    /// head cursor over header and payload.
    ///
    /// An oversize payload is rejected before anything else is looked at.
    /// Otherwise the wait rule is consulted: given enough free space the
    /// frame goes in; given less, nothing changes and the outcome tells
    /// the caller to park, or that shutdown was seen.
    pub fn write(&mut self, payload: &[u8]) -> (r: Result<(), ChannelError>)
        requires
            old(self).wf(),
        ensures
            final(self).wf(),
            final(self).cap() == old(self).cap(),
            final(self).closed_flag() == old(self).closed_flag(),
            payload@.len() > old(self).max_payload() ==> r == Err::<(), ChannelError>(
                ChannelError::OversizeMessage,
            ) && *final(self) == *old(self),
            payload@.len() <= old(self).max_payload() && old(self).free() >= payload@.len()
                + HEADER_BYTES ==> {
                &&& r == Ok::<(), ChannelError>(())
                &&& final(self).avail() == old(self).avail() + frame_of(payload@)
                &&& final(self).avail().len() == old(self).avail().len() + HEADER_BYTES
                    + payload@.len()
                &&& final(self).messages() == old(self).messages().push(payload@)
                &&& final(self).head_cursor() == wrap(
                    old(self).head_cursor() + HEADER_BYTES + payload@.len(),
                    old(self).cap(),
                )
                &&& final(self).tail_cursor() == old(self).tail_cursor()
            },
            payload@.len() <= old(self).max_payload() && old(self).free() < payload@.len()
                + HEADER_BYTES && old(self).closed_flag() ==> r == Err::<(), ChannelError>(
                ChannelError::ShutdownObserved,
            ) && *final(self) == *old(self),
            payload@.len() <= old(self).max_payload() && old(self).free() < payload@.len()
                + HEADER_BYTES && !old(self).closed_flag() ==> r == Err::<(), ChannelError>(
                ChannelError::WouldBlock,
            ) && *final(self) == *old(self),
    {
        let cap = self.ring.capacity();
        if payload.len() > cap - HEADER_BYTES - 1 {
            return Err(ChannelError::OversizeMessage);
        }
        let needed = payload.len() + HEADER_BYTES;
        let free = self.ring.free_space();
        match gate_poll(free, needed, self.closed) {
            GateVerdict::Wait => Err(ChannelError::WouldBlock),
            GateVerdict::ShutdownObserved => Err(ChannelError::ShutdownObserved),
            GateVerdict::Proceed => {
                let header = encode_header(payload.len() as u32);
                self.ring.write_bytes(header.as_slice());
                self.ring.write_bytes(payload);
                proof {
                    lemma_wrap_compose(
                        old(self).head_cursor(),
                        HEADER_BYTES as int,
                        payload@.len() as int,
                        old(self).cap(),
                    );
                    assert(self.avail() =~= old(self).avail() + frame_of(payload@));
                    lemma_well_framed_append(old(self).avail(), payload@);
                }
                Ok(())
            },
        }
    }

    /// Read one message: decode the header at the tail cursor, then consume
    /// header and payload, advancing the tail over both.
    ///
    /// The wait rule is consulted twice, as each of the two reads may find
    /// the producer still filling the buffer: first for the header, then
    /// for the declared payload. Nothing is consumed unless the entire
    /// frame is there, so a parked caller re-runs the operation from the
    /// start.
    pub fn read(&mut self) -> (r: Result<Vec<u8>, ChannelError>)
        requires
            old(self).wf(),
        ensures
            final(self).wf(),
            final(self).cap() == old(self).cap(),
            final(self).closed_flag() == old(self).closed_flag(),
            old(self).messages().len() > 0 <==> has_frame(old(self).avail()),
            has_frame(old(self).avail()) ==> {
                &&& r matches Ok(payload) && payload@ == frame_payload(old(self).avail())
                    && payload@ == old(self).messages()[0]
                &&& final(self).avail() == frame_rest(old(self).avail())
                &&& final(self).avail().len() + HEADER_BYTES + frame_len(old(self).avail())
                    == old(self).avail().len()
                &&& final(self).messages() == old(self).messages().skip(1)
                &&& final(self).tail_cursor() == wrap(
                    old(self).tail_cursor() + HEADER_BYTES + frame_len(old(self).avail()),
                    old(self).cap(),
                )
                &&& final(self).head_cursor() == old(self).head_cursor()
            },
            !has_frame(old(self).avail()) && old(self).closed_flag() ==> r == Err::<
                Vec<u8>,
                ChannelError,
            >(ChannelError::ShutdownObserved) && *final(self) == *old(self),
            !has_frame(old(self).avail()) && !old(self).closed_flag() ==> r == Err::<
                Vec<u8>,
                ChannelError,
            >(ChannelError::WouldBlock) && *final(self) == *old(self),
    {
        proof {
            lemma_parse_frames_nonempty(old(self).avail());
        }
        let available = self.ring.data_available();
        match gate_poll(available, HEADER_BYTES, self.closed) {
            GateVerdict::Wait => Err(ChannelError::WouldBlock),
            GateVerdict::ShutdownObserved => Err(ChannelError::ShutdownObserved),
            GateVerdict::Proceed => {
                let header = self.ring.peek_bytes(HEADER_BYTES);
                let declared = decode_header(header.as_slice()) as usize;
                match gate_poll(available - HEADER_BYTES, declared, self.closed) {
                    GateVerdict::Wait => Err(ChannelError::WouldBlock),
                    GateVerdict::ShutdownObserved => Err(ChannelError::ShutdownObserved),
                    GateVerdict::Proceed => {
                        let _ = self.ring.read_bytes(HEADER_BYTES);
                        let payload = self.ring.read_bytes(declared);
                        proof {
                            let a = old(self).avail();
                            old(self).ring.lemma_avail_len();
                            lemma_wrap_compose(
                                old(self).tail_cursor(),
                                HEADER_BYTES as int,
                                declared as int,
                                old(self).cap(),
                            );
                            assert(payload@ =~= frame_payload(a));
                            assert(self.avail() =~= frame_rest(a));
                            assert(well_framed(a));
                            assert(well_framed(frame_rest(a)));
                            assert(parse_frames(a) =~~= seq![frame_payload(a)] + parse_frames(
                                frame_rest(a),
                            ));
                            assert(self.messages() =~~= old(self).messages().skip(1));
                        }
                        Ok(payload)
                    },
                }
            },
        }
    }

    /// Raise the shutdown flag. Idempotent; cursors and ring contents stay
    /// as they are, and every later or concurrent operation on the region
    /// observes the flag.
    pub fn close(&mut self)
        ensures
            final(self).closed_flag(),
            final(self).wf() == old(self).wf(),
            final(self).cap() == old(self).cap(),
            final(self).avail() == old(self).avail(),
            final(self).head_cursor() == old(self).head_cursor(),
            final(self).tail_cursor() == old(self).tail_cursor(),
    {
        self.closed = true;
    }

    /// Capacity of the region's ring.
    pub fn capacity(&self) -> (r: usize)
        ensures
            r == self.cap(),
    {
        self.ring.capacity()
    }

    /// Free space a producer may still fill.
    pub fn free_space(&self) -> (r: usize)
        requires
            self.wf(),
        ensures
            r == self.free(),
    {
        self.ring.free_space()
    }

    /// Bytes a consumer may still read.
    pub fn data_available(&self) -> (r: usize)
        requires
            self.wf(),
        ensures
            r == self.avail().len(),
    {
        self.ring.data_available()
    }

    /// The shutdown flag, as any attached process observes it.
    pub fn is_closed(&self) -> (r: bool)
        ensures
            r == self.closed_flag(),
    {
        self.closed
    }

    /// The write cursor, as stored in the region.
    pub fn head(&self) -> (r: usize)
        ensures
            r == self.head_cursor(),
    {
        self.ring.head()
    }

    /// The read cursor, as stored in the region.
    pub fn tail(&self) -> (r: usize)
        ensures
            r == self.tail_cursor(),
    {
        self.ring.tail()
    }
}

} // verus!
