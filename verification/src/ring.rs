//! Byte-level circular storage with safe wraparound.
//!
//! A `RingBuffer` keeps a fixed block of `cap` bytes and two cursors. Bytes
//! enter at `head` and leave at `tail`; both cursors advance modulo `cap`.
//! One byte of the block is permanently reserved so that a full buffer can be
//! told apart from an empty one: the readable bytes and the free space always
//! split a budget of `cap - 1`.

use vstd::prelude::*;

verus! {

/// Reduce a cursor sum in `[0, 2 * cap)` back into `[0, cap)`.
///
/// Every cursor computation in this crate adds an offset below `cap` to a
/// cursor below `cap`, so a single conditional subtraction is the whole of
/// the modulo arithmetic.
pub open spec fn wrap(i: int, cap: int) -> int {
    if i < cap {
        i
    } else {
        i - cap
    }
}

/// Free space left by the cursors, under the `cap - 1` budget.
pub open spec fn spec_free_space(head: int, tail: int, cap: int) -> int {
    if head >= tail {
        cap - (head - tail) - 1
    } else {
        (tail - head) - 1
    }
}

/// Readable bytes between the cursors.
pub open spec fn spec_data_available(head: int, tail: int, cap: int) -> int {
    if head >= tail {
        head - tail
    } else {
        cap - (tail - head)
    }
}

/// Free space computed from raw cursors.
///
/// The blocking gate re-evaluates this on every wakeup, also over cursors
/// read straight out of a shared region, so it stands apart from the buffer
/// type.
pub fn free_space_of(head: usize, tail: usize, cap: usize) -> (r: usize)
    requires
        head < cap,
        tail < cap,
    ensures
        r == spec_free_space(head as int, tail as int, cap as int),
{
    if head >= tail {
        cap - (head - tail) - 1
    } else {
        (tail - head) - 1
    }
}

/// Readable bytes computed from raw cursors; the complement of
/// [`free_space_of`] under the `cap - 1` budget.
pub fn data_available_of(head: usize, tail: usize, cap: usize) -> (r: usize)
    requires
        head < cap,
        tail < cap,
    ensures
        r == spec_data_available(head as int, tail as int, cap as int),
{
    if head >= tail {
        head - tail
    } else {
        cap - (tail - head)
    }
}

/// Law: however the cursors stand, free space and readable bytes split the
/// `cap - 1` budget exactly.
pub proof fn lemma_capacity_invariant(head: int, tail: int, cap: int)
    requires
        0 <= head < cap,
        0 <= tail < cap,
    ensures
        spec_free_space(head, tail, cap) + spec_data_available(head, tail, cap) == cap - 1,
{
}

/// The byte stored `j` places past `start`, wrapping past the end of the
/// block.
spec fn byte_at(d: Seq<u8>, start: int, j: int, cap: int) -> u8 {
    d[wrap(start + j, cap)]
}

/// Advancing a wrapped cursor by two offsets in turn lands where advancing
/// it by their sum does, as long as the sum stays below `cap`.
pub proof fn lemma_wrap_compose(t: int, a: int, b: int, cap: int)
    requires
        0 < cap,
        0 <= t < cap,
        0 <= a,
        0 <= b,
        a + b < cap,
    ensures
        wrap(wrap(t + a, cap) + b, cap) == wrap(t + a + b, cap),
{
}

/// Within one trip around the block, distinct offsets from one cursor land
/// on distinct bytes.
proof fn lemma_wrap_injective(t: int, j: int, k: int, cap: int)
    requires
        0 < cap,
        0 <= t < cap,
        0 <= j < cap,
        0 <= k < cap,
        wrap(t + j, cap) == wrap(t + k, cap),
    ensures
        j == k,
{
}

/// Fixed-capacity circular byte store addressed by a head and a tail cursor.
pub struct RingBuffer {
    data: Vec<u8>,
    head: usize,
    tail: usize,
}

impl RingBuffer {
    /// Total capacity `cap`: the size of the byte block.
    pub closed spec fn cap(self) -> int {
        self.data@.len() as int
    }

    /// The write cursor.
    pub closed spec fn head_cursor(self) -> int {
        self.head as int
    }

    /// The read cursor.
    pub closed spec fn tail_cursor(self) -> int {
        self.tail as int
    }

    /// Well-formedness: both cursors stay inside the block, and the block is
    /// small enough for a cursor to be carried in a four-byte field.
    pub open spec fn wf(self) -> bool {
        &&& 2 <= self.cap() <= u32::MAX
        &&& 0 <= self.head_cursor() < self.cap()
        &&& 0 <= self.tail_cursor() < self.cap()
    }

    /// Number of readable bytes.
    pub closed spec fn level(self) -> int {
        spec_data_available(self.head as int, self.tail as int, self.cap())
    }

    /// Free space under the `cap - 1` budget.
    pub open spec fn free(self) -> int {
        self.cap() - 1 - self.avail().len()
    }

    /// The readable bytes in order, oldest first, starting at the tail
    /// cursor and wrapping past the end of the block where needed.
    pub closed spec fn avail(self) -> Seq<u8> {
        Seq::new(self.level() as nat, |j: int| byte_at(self.data@, self.tail as int, j, self.cap()))
    }

    /// The readable bytes never fill the block: one byte stays reserved.
    pub proof fn lemma_avail_len(self)
        requires
            self.wf(),
        ensures
            self.avail().len() <= self.cap() - 1,
    {
    }

    /// A fresh buffer of `cap` zeroed bytes with both cursors at zero.
    pub fn with_capacity(cap: usize) -> (r: RingBuffer)
        requires
            2 <= cap <= u32::MAX,
        ensures
            r.wf(),
            r.cap() == cap,
            r.head_cursor() == 0,
            r.tail_cursor() == 0,
            r.avail() == Seq::<u8>::empty(),
    {
        let mut data: Vec<u8> = Vec::new();
        let mut i: usize = 0;
        while i < cap
            invariant
                i <= cap,
                data@.len() == i,
            decreases cap - i,
        {
            data.push(0);
            i = i + 1;
        }
        let r = RingBuffer { data, head: 0, tail: 0 };
        proof {
            assert(r.avail() =~= Seq::<u8>::empty());
        }
        r
    }

    /// Capacity as held by the block itself.
    pub fn capacity(&self) -> (r: usize)
        ensures
            r == self.cap(),
    {
        self.data.len()
    }

    /// The write cursor, as stored.
    pub fn head(&self) -> (r: usize)
        ensures
            r == self.head_cursor(),
    {
        self.head
    }

    /// The read cursor, as stored.
    pub fn tail(&self) -> (r: usize)
        ensures
            r == self.tail_cursor(),
    {
        self.tail
    }

    /// Free space left for a writer.
    pub fn free_space(&self) -> (r: usize)
        requires
            self.wf(),
        ensures
            r == self.free(),
    {
        free_space_of(self.head, self.tail, self.data.len())
    }

    /// Bytes available to a reader.
    pub fn data_available(&self) -> (r: usize)
        requires
            self.wf(),
        ensures
            r == self.avail().len(),
    {
        data_available_of(self.head, self.tail, self.data.len())
    }

    /// Copy `buf` into the ring at the head cursor, wrapping past the end of
    /// the block where needed, then advance the head over it.
    ///
    /// The bytes already readable stay exactly as they were; `buf` appears
    /// after them.
    pub fn write_bytes(&mut self, buf: &[u8])
        requires
            old(self).wf(),
            buf@.len() <= old(self).free(),
        ensures
            final(self).wf(),
            final(self).cap() == old(self).cap(),
            final(self).tail_cursor() == old(self).tail_cursor(),
            final(self).head_cursor() == wrap(
                old(self).head_cursor() + buf@.len(),
                old(self).cap(),
            ),
            final(self).avail() == old(self).avail() + buf@,
    {
        let cap = self.data.len();
        let mut pos: usize = self.head;
        let mut i: usize = 0;
        while i < buf.len()
            invariant
                self.wf(),
                self.cap() == old(self).cap(),
                cap == self.cap(),
                self.head == old(self).head,
                self.tail == old(self).tail,
                i <= buf@.len(),
                buf@.len() <= old(self).free(),
                pos < cap,
                pos as int == wrap(old(self).head_cursor() + i, old(self).cap()),
                forall|j: int|
                    0 <= j < old(self).level() ==> byte_at(
                        self.data@,
                        old(self).tail_cursor(),
                        j,
                        old(self).cap(),
                    ) == byte_at(old(self).data@, old(self).tail_cursor(), j, old(self).cap()),
                forall|k: int|
                    0 <= k < i ==> byte_at(self.data@, old(self).head_cursor(), k, old(self).cap())
                        == buf@[k],
            decreases buf@.len() - i,
        {
            let ghost pre = *self;
            let b = buf[i];
            self.data.set(pos, b);
            proof {
                let c = old(self).cap();
                let t = old(self).tail_cursor();
                let h = old(self).head_cursor();
                let lvl = old(self).level();
                assert(h == wrap(t + lvl, c));
                lemma_wrap_compose(t, lvl, i as int, c);
                assert(pos as int == wrap(t + (lvl + i), c));
                assert forall|j: int| 0 <= j < lvl implies byte_at(self.data@, t, j, c) == byte_at(
                    old(self).data@,
                    t,
                    j,
                    c,
                ) by {
                    if wrap(t + j, c) == pos as int {
                        lemma_wrap_injective(t, j, lvl + i, c);
                    }
                    assert(byte_at(self.data@, t, j, c) == byte_at(pre.data@, t, j, c));
                }
                assert forall|k: int| 0 <= k < i + 1 implies byte_at(self.data@, h, k, c)
                    == buf@[k] by {
                    if k < i {
                        if wrap(h + k, c) == pos as int {
                            lemma_wrap_injective(h, k, i as int, c);
                        }
                        assert(byte_at(self.data@, h, k, c) == byte_at(pre.data@, h, k, c));
                    } else {
                        assert(wrap(h + k, c) == pos as int);
                    }
                }
            }
            i = i + 1;
            pos = if pos + 1 == cap {
                0
            } else {
                pos + 1
            };
        }
        self.head = pos;
        proof {
            let c = old(self).cap();
            let t = old(self).tail_cursor();
            let h = old(self).head_cursor();
            let n = buf@.len() as int;
            let lvl = old(self).level();
            assert(h == wrap(t + lvl, c));
            lemma_wrap_compose(t, lvl, n, c);
            assert(self.head_cursor() == wrap(t + (lvl + n), c));
            assert(self.level() == lvl + n);
            assert forall|j: int| 0 <= j < lvl + n implies self.avail()[j] == (old(self).avail()
                + buf@)[j] by {
                if j < lvl {
                    assert(byte_at(self.data@, t, j, c) == byte_at(old(self).data@, t, j, c));
                } else {
                    lemma_wrap_compose(t, lvl, j - lvl, c);
                    assert(wrap(t + j, c) == wrap(h + (j - lvl), c));
                    assert(byte_at(self.data@, h, j - lvl, c) == buf@[j - lvl]);
                    assert(byte_at(self.data@, t, j, c) == byte_at(self.data@, h, j - lvl, c));
                }
            }
            assert(self.avail() =~= old(self).avail() + buf@);
        }
    }

    /// Copy of the first `n` readable bytes, oldest first; the cursors do
    /// not move.
    pub fn peek_bytes(&self, n: usize) -> (r: Vec<u8>)
        requires
            self.wf(),
            n <= self.avail().len(),
        ensures
            r@ == self.avail().take(n as int),
    {
        let cap = self.data.len();
        let mut out: Vec<u8> = Vec::new();
        let mut pos: usize = self.tail;
        let mut i: usize = 0;
        while i < n
            invariant
                self.wf(),
                cap == self.cap(),
                i <= n,
                n <= self.avail().len(),
                pos < cap,
                pos as int == wrap(self.tail_cursor() + i, self.cap()),
                out@.len() == i,
                forall|k: int| 0 <= k < i ==> out@[k] == self.avail()[k],
            decreases n - i,
        {
            let b = self.data[pos];
            out.push(b);
            i = i + 1;
            pos = if pos + 1 == cap {
                0
            } else {
                pos + 1
            };
        }
        proof {
            assert(out@ =~= self.avail().take(n as int));
        }
        out
    }

    /// Consume the first `n` readable bytes: return them oldest first and
    /// advance the tail cursor over them.
    pub fn read_bytes(&mut self, n: usize) -> (r: Vec<u8>)
        requires
            old(self).wf(),
            n <= old(self).avail().len(),
        ensures
            final(self).wf(),
            final(self).cap() == old(self).cap(),
            final(self).head_cursor() == old(self).head_cursor(),
            final(self).tail_cursor() == wrap(old(self).tail_cursor() + n, old(self).cap()),
            r@ == old(self).avail().take(n as int),
            final(self).avail() == old(self).avail().skip(n as int),
    {
        let out = self.peek_bytes(n);
        let cap = self.data.len();
        let t = self.tail;
        self.tail = if n < cap - t {
            t + n
        } else {
            n - (cap - t)
        };
        proof {
            let c = old(self).cap();
            let t0 = old(self).tail_cursor();
            let h = old(self).head_cursor();
            let lvl = old(self).level();
            assert(h == wrap(t0 + lvl, c));
            assert(self.tail_cursor() == wrap(t0 + n, c));
            assert(self.level() == lvl - n);
            assert forall|j: int| 0 <= j < lvl - n implies self.avail()[j] == old(self).avail().skip(
                n as int,
            )[j] by {
                lemma_wrap_compose(t0, n as int, j, c);
                assert(wrap(self.tail_cursor() + j, c) == wrap(t0 + (n + j), c));
            }
            assert(self.avail() =~= old(self).avail().skip(n as int));
        }
        out
    }
}

} // verus!
