//! Byte ring buffer with the semantics of JACK's `jack_ringbuffer_t`.
//!
//! One byte of the storage is always kept unused, so equal read and write
//! positions mean "empty" rather than "full".  The vector methods expose the
//! contiguous parts of the readable and writable regions; callers move the
//! positions afterwards with the matching advance method.

use vstd::prelude::*;

verus! {

/// `x` reduced into `[0, m)` for `0 <= x < 2 * m`: positions wrap at most once.
pub open spec fn wrap(x: int, m: int) -> int {
    if x < m { x } else { x - m }
}

/// The smaller of two integers.
pub open spec fn min_int(a: int, b: int) -> int {
    if a <= b { a } else { b }
}

/// How far storage index `j` lies after position `start`, going forward.
pub open spec fn offset(start: int, j: int, m: int) -> int {
    if j >= start { j - start } else { j + m - start }
}

/// A readable region of the buffer.
#[derive(Debug, PartialEq, Eq)]
pub struct RingBufferData<'a> {
    pub buf: &'a [u8],
    pub len: usize,
}

/// A writable region of the buffer.
#[derive(Debug, PartialEq, Eq)]
pub struct RingBufferDataMut<'a> {
    pub buf: &'a mut [u8],
    pub len: usize,
}

pub struct RingBuffer {
    buf: Vec<u8>,
    read_pos: usize,
    write_pos: usize,
}

impl RingBuffer {
    /// Positions are inside the storage (both zero when it is empty).
    pub closed spec fn wf(&self) -> bool {
        if self.buf.len() == 0 {
            self.read_pos == 0 && self.write_pos == 0
        } else {
            self.read_pos < self.buf.len() && self.write_pos < self.buf.len()
        }
    }

    /// Size of the storage in bytes.
    pub closed spec fn spec_capacity(&self) -> nat {
        self.buf.len() as nat
    }

    closed spec fn spec_read_space(&self) -> nat {
        if self.buf.len() == 0 {
            0
        } else if self.write_pos >= self.read_pos {
            (self.write_pos - self.read_pos) as nat
        } else {
            (self.buf.len() - self.read_pos + self.write_pos) as nat
        }
    }

    /// Number of bytes that can be written before the buffer is full.
    pub open spec fn spec_write_space(&self) -> nat {
        if self.spec_capacity() == 0 {
            0
        } else {
            (self.spec_capacity() - 1 - self.view().len()) as nat
        }
    }

    /// Storage index of the `i`-th byte after position `pos`.
    closed spec fn slot(&self, pos: int, i: int) -> int {
        wrap(pos + i, self.buf.len() as int)
    }

    /// The bytes that the buffer holds, oldest first.
    pub closed spec fn view(&self) -> Seq<u8> {
        Seq::new(self.spec_read_space(), |i: int| self.buf@[self.slot(self.read_pos as int, i)])
    }

    /// The free region has as many bytes as can be written.
    pub proof fn lemma_free_region_len(&self)
        ensures
            self.free_region().len() == self.spec_write_space(),
    {
    }

    /// The bytes of the free region, starting where the next write goes.
    pub closed spec fn free_region(&self) -> Seq<u8> {
        Seq::new(
            self.spec_write_space(),
            |i: int| self.buf@[self.slot(self.write_pos as int, i)],
        )
    }

    proof fn lemma_read_space_bound(&self)
        requires
            self.wf(),
        ensures
            self.buf.len() > 0 ==> self.spec_read_space() < self.buf.len(),
            self.view().len() == self.spec_read_space(),
            self.buf.len() > 0 ==> self.write_pos as int == self.slot(
                self.read_pos as int,
                self.spec_read_space() as int,
            ),
    {
    }

    /// The storage, for locking it in memory.
    pub fn storage(&self) -> (r: &[u8])
        ensures
            r@.len() == self.spec_capacity(),
    {
        self.buf.as_slice()
    }

    /// Creates an empty buffer with `size` bytes of storage.
    pub fn create(size: usize) -> (rb: Self)
        ensures
            rb.wf(),
            rb.spec_capacity() == size,
            rb@ == Seq::<u8>::empty(),
            rb.read_pos() == 0,
            rb.write_pos() == 0,
            rb.free_region() == Seq::new(rb.spec_write_space(), |i: int| 0u8),
    {
        let rb = RingBuffer { buf: vec![0u8; size], read_pos: 0, write_pos: 0 };
        assert(rb@ =~= Seq::<u8>::empty());
        assert(rb.free_region() =~= Seq::new(rb.spec_write_space(), |i: int| 0u8));
        rb
    }

    pub fn capacity(&self) -> (c: usize)
        ensures
            c == self.spec_capacity(),
    {
        self.buf.len()
    }

    /// Number of bytes available for reading.
    pub fn read_space(&self) -> (n: usize)
        requires
            self.wf(),
        ensures
            n == self@.len(),
    {
        proof { self.lemma_read_space_bound(); }
        let size = self.buf.len();
        if size == 0 {
            return 0;
        }
        if self.write_pos >= self.read_pos {
            self.write_pos - self.read_pos
        } else {
            size - self.read_pos + self.write_pos
        }
    }

    /// Number of bytes available for writing: one byte less than the free
    /// storage, and zero for a buffer without storage.
    pub fn write_space(&self) -> (n: usize)
        requires
            self.wf(),
        ensures
            n == self.spec_write_space(),
            self.spec_capacity() > 0 ==> n + self@.len() + 1 == self.spec_capacity(),
    {
        proof { self.lemma_read_space_bound(); }
        let used = self.read_space();
        let size = self.buf.len();
        if size == 0 {
            0
        } else {
            size - (used + 1)
        }
    }

    /// Empties the buffer.
    pub fn reset(&mut self)
        requires
            old(self).wf(),
        ensures
            final(self).wf(),
            final(self).spec_capacity() == old(self).spec_capacity(),
            final(self)@ == Seq::<u8>::empty(),
            final(self).read_pos() == 0,
            final(self).write_pos() == 0,
    {
        self.read_pos = 0;
        self.write_pos = 0;
        assert(self@ =~= Seq::<u8>::empty());
    }

    /// Appends the first `min(count, src.len(), write_space)` bytes of `src`
    /// and returns how many were written.
    pub fn write(&mut self, src: &[u8], count: usize) -> (n: usize)
        requires
            old(self).wf(),
        ensures
            final(self).wf(),
            final(self).spec_capacity() == old(self).spec_capacity(),
            n == min_int(min_int(count as int, src@.len() as int), old(self).spec_write_space() as int),
            final(self)@ == old(self)@ + src@.subrange(0, n as int),
            final(self)@ == after_write(old(self)@, src@, count as int, old(self).spec_write_space() as int),
    {
        let space = self.write_space();
        let mut n = count;
        if src.len() < n {
            n = src.len();
        }
        if space < n {
            n = space;
        }
        if n == 0 {
            assert(src@.subrange(0, 0) =~= Seq::<u8>::empty());
            assert(self@ =~= old(self)@ + src@.subrange(0, 0));
            return 0;
        }
        let size = self.buf.len();
        let ghost old_buf = self.buf@;
        let ghost start = self.write_pos as int;
        proof { self.lemma_read_space_bound(); }
        let mut i: usize = 0;
        let mut pos = self.write_pos;
        while i < n
            invariant
                size == self.buf.len(),
                size > 0,
                0 <= i <= n,
                n <= space,
                space + old(self)@.len() + 1 == size,
                n <= src@.len(),
                pos as int == wrap(start + i, size as int),
                self.read_pos == old(self).read_pos,
                self.write_pos == old(self).write_pos,
                start == old(self).write_pos,
                start < size,
                old_buf.len() == size,
                forall|j: int| 0 <= j < size ==> #[trigger] self.buf@[j] == (
                    if offset(start, j, size as int) < i {
                        src@[offset(start, j, size as int)]
                    } else {
                        old_buf[j]
                    }),
            decreases n - i,
        {
            self.buf.set(pos, src[i]);
            i = i + 1;
            pos = if pos + 1 == size { 0 } else { pos + 1 };
        }
        self.write_pos = pos;
        assert(self@ =~= old(self)@ + src@.subrange(0, n as int));
        n
    }

    /// Moves the first `min(count, dst.len(), read_space)` bytes of the
    /// buffer into the front of `dst` and returns how many were read.
    pub fn read(&mut self, dst: &mut [u8], count: usize) -> (n: usize)
        requires
            old(self).wf(),
        ensures
            final(self).wf(),
            final(self).spec_capacity() == old(self).spec_capacity(),
            n == min_int(min_int(count as int, old(dst)@.len() as int), old(self)@.len() as int),
            final(dst)@ == old(self)@.subrange(0, n as int) + old(dst)@.subrange(
                n as int,
                old(dst)@.len() as int,
            ),
            final(self)@ == old(self)@.subrange(n as int, old(self)@.len() as int),
            final(self).free_region().len() == old(self).free_region().len() + n,
            count <= old(dst)@.len() ==> final(dst)@.subrange(0, n as int) == read_out(old(self)@, count as int),
    {
        let avail = self.read_space();
        let mut n = count;
        if dst.len() < n {
            n = dst.len();
        }
        if avail < n {
            n = avail;
        }
        if n == 0 {
            assert(dst@ =~= old(self)@.subrange(0, 0) + old(dst)@.subrange(0, old(dst)@.len() as int));
            assert(self@ =~= old(self)@.subrange(0, old(self)@.len() as int));
            return 0;
        }
        let size = self.buf.len();
        proof { self.lemma_read_space_bound(); }
        let ghost view0 = self@;
        let ghost dst0 = dst@;
        let mut i: usize = 0;
        let mut pos = self.read_pos;
        while i < n
            invariant
                size == self.buf.len(),
                size > 0,
                0 <= i <= n,
                n <= avail,
                avail == view0.len(),
                avail < size,
                n <= dst0.len(),
                dst@.len() == dst0.len(),
                self.read_pos < size,
                pos as int == wrap(self.read_pos + i, size as int),
                view0 == self@,
                forall|k: int| 0 <= k < dst0.len() ==> #[trigger] dst@[k] == (
                    if k < i { view0[k] } else { dst0[k] }),
            decreases n - i,
        {
            dst[i] = self.buf[pos];
            i = i + 1;
            pos = if pos + 1 == size { 0 } else { pos + 1 };
        }
        self.read_pos = pos;
        assert(dst@ =~= view0.subrange(0, n as int) + dst0.subrange(n as int, dst0.len() as int));
        assert(self@ =~= view0.subrange(n as int, view0.len() as int));
        n
    }

    /// Length of the contiguous readable part that starts at the read
    /// position, and of the part that wraps to the start of the storage.
    fn read_lengths(&self) -> (r: (usize, usize))
        requires
            self.wf(),
        ensures
            r.0 + r.1 == self@.len(),
            r.0 == min_int(self@.len() as int, self.spec_capacity() - self.read_pos),
    {
        let n = self.read_space();
        let room = self.buf.len() - self.read_pos;
        let first = if n < room { n } else { room };
        (first, n - first)
    }

    /// Length of the contiguous writable part that starts at the write
    /// position, and of the part that wraps to the start of the storage.
    fn write_lengths(&self) -> (r: (usize, usize))
        requires
            self.wf(),
        ensures
            r.0 + r.1 == self.spec_write_space(),
            r.0 == min_int(self.spec_write_space() as int, self.spec_capacity() - self.write_pos),
    {
        let n = self.write_space();
        let room = self.buf.len() - self.write_pos;
        let first = if n < room { n } else { room };
        (first, n - first)
    }

    /// The readable bytes as two contiguous regions: from the read position
    /// to the end of the storage, then from the start of the storage.
    pub fn read_vector(&self) -> (r: [RingBufferData<'_>; 2])
        requires
            self.wf(),
        ensures
            r[0].len == r[0].buf@.len(),
            r[1].len == r[1].buf@.len(),
            r[0].buf@ + r[1].buf@ == self@,
            r[0].len == min_int(self@.len() as int, self.spec_capacity() - self.read_pos()),
    {
        proof { self.lemma_read_space_bound(); }
        let (first, second) = self.read_lengths();
        let all = self.buf.as_slice();
        let a = vstd::slice::slice_subrange(all, self.read_pos, self.read_pos + first);
        let b = vstd::slice::slice_subrange(all, 0, second);
        assert(a@ + b@ =~= self@);
        [RingBufferData { buf: a, len: first }, RingBufferData { buf: b, len: second }]
    }

    /// The read position, as an index into the storage.
    pub closed spec fn read_pos(&self) -> int {
        self.read_pos as int
    }

    /// The write position, as an index into the storage.
    pub closed spec fn write_pos(&self) -> int {
        self.write_pos as int
    }

    /// The free space as two contiguous writable regions: from the write
    /// position towards the end of the storage, then from its start.
    /// Bytes written into them become readable after `advance_write`.
    pub fn write_vector(&mut self) -> (r: [RingBufferDataMut<'_>; 2])
        requires
            old(self).wf(),
        ensures
            r[0].len == r[0].buf@.len(),
            r[1].len == r[1].buf@.len(),
            r[0].buf@ + r[1].buf@ == old(self).free_region(),
            r[0].len == min_int(
                old(self).spec_write_space() as int,
                old(self).spec_capacity() - old(self).write_pos(),
            ),
            final(self).read_pos() == old(self).read_pos(),
            final(self).write_pos() == old(self).write_pos(),
            // A borrowed slice keeps its length; given that, the readable
            // bytes are untouched and the free region is what was written.
            final(r[0].buf)@.len() == r[0].len && final(r[1].buf)@.len() == r[1].len ==> {
                &&& final(self).wf()
                &&& final(self).spec_capacity() == old(self).spec_capacity()
                &&& final(self)@ == old(self)@
                &&& final(self).free_region() == final(r[0].buf)@ + final(r[1].buf)@
            },
    {
        proof { self.lemma_read_space_bound(); }
        let (first, second) = self.write_lengths();
        let wp = self.write_pos;
        let all = self.buf.as_mut_slice();
        let (left, right) = all.split_at_mut(wp);
        let second = if second < left.len() { second } else { left.len() };
        let (a, _) = right.split_at_mut(first);
        let (b, _) = left.split_at_mut(second);
        [RingBufferDataMut { buf: a, len: first }, RingBufferDataMut { buf: b, len: second }]
    }

    /// The position `count` bytes after `pos`, wrapping at the end of the
    /// storage (zero when there is no storage).
    fn advance(&self, pos: usize, count: usize) -> (r: usize)
        requires
            self.wf(),
            pos < self.buf.len() || self.buf.len() == 0,
            count < self.buf.len() || self.buf.len() == 0,
        ensures
            self.buf.len() == 0 ==> r == 0,
            self.buf.len() > 0 ==> r == wrap(pos + count, self.buf.len() as int),
    {
        if self.buf.len() == 0 {
            0
        } else {
            let room = self.buf.len() - pos;
            if count < room { pos + count } else { count - room }
        }
    }

    /// Discards the first `min(count, read_space)` bytes.
    pub fn advance_read(&mut self, count: usize)
        requires
            old(self).wf(),
        ensures
            final(self).wf(),
            final(self).spec_capacity() == old(self).spec_capacity(),
            final(self)@ == old(self)@.subrange(
                min_int(count as int, old(self)@.len() as int),
                old(self)@.len() as int,
            ),
            final(self).write_pos() == old(self).write_pos(),
    {
        proof { self.lemma_read_space_bound(); }
        let avail = self.read_space();
        let n = if count < avail { count } else { avail };
        self.read_pos = self.advance(self.read_pos, n);
        assert(self@ =~= old(self)@.subrange(n as int, old(self)@.len() as int));
    }

    /// Makes the first `min(count, write_space)` bytes of the free region
    /// readable, after what the buffer already holds.
    pub fn advance_write(&mut self, count: usize)
        requires
            old(self).wf(),
        ensures
            final(self).wf(),
            final(self).spec_capacity() == old(self).spec_capacity(),
            final(self)@ == old(self)@ + old(self).free_region().subrange(
                0,
                min_int(count as int, old(self).spec_write_space() as int),
            ),
            final(self)@.len() == old(self)@.len() + min_int(count as int, old(self).spec_write_space() as int),
            final(self).read_pos() == old(self).read_pos(),
            final(self).spec_write_space() == old(self).spec_write_space() - min_int(
                count as int,
                old(self).spec_write_space() as int,
            ),
    {
        proof { self.lemma_read_space_bound(); }
        let space = self.write_space();
        let n = if count < space { count } else { space };
        self.write_pos = self.advance(self.write_pos, n);
        assert(self@ =~= old(self)@ + old(self).free_region().subrange(0, n as int));
    }
}

/// What `write` leaves in a buffer holding `contents`: the first
/// `min(count, src.len(), space)` bytes of `src` appended.
pub open spec fn after_write(contents: Seq<u8>, src: Seq<u8>, count: int, space: int) -> Seq<u8> {
    contents + src.subrange(0, min_int(min_int(count, src.len() as int), space))
}

/// What `read` of `count` bytes hands out of a buffer holding `contents`.
pub open spec fn read_out(contents: Seq<u8>, count: int) -> Seq<u8> {
    contents.subrange(0, min_int(count, contents.len() as int))
}

/// Law: a buffer with storage holds at most one byte less than its
/// capacity; what it holds and what is free add up to that.
pub proof fn law_space_partition(rb: &RingBuffer)
    requires
        rb.wf(),
    ensures
        rb.spec_capacity() == 0 ==> rb@.len() == 0 && rb.spec_write_space() == 0,
        rb.spec_capacity() > 0 ==> rb@.len() + rb.spec_write_space() + 1 == rb.spec_capacity(),
{
    rb.lemma_read_space_bound();
}

/// Law: bytes come out in the order they went in.  Writing `src` into a
/// buffer holding `contents`, when it all fits, and then reading everything
/// hands out `contents` followed by `src`.
pub proof fn law_first_in_first_out(contents: Seq<u8>, src: Seq<u8>, space: int)
    requires
        src.len() <= space,
    ensures
        read_out(after_write(contents, src, src.len() as int, space), (contents.len() + src.len()) as int) == contents + src,
{
    assert(src.subrange(0, src.len() as int) =~= src);
    let w = after_write(contents, src, src.len() as int, space);
    assert(w.subrange(0, w.len() as int) =~= w);
}

} // verus!