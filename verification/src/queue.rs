//! A multi-producer single-consumer queue of [`Bytes`] that groups the
//! queued buffers into vectored writes.
//!
//! Producers append buffers; the consumer takes the buffers at the front as
//! one list of I/O slices, writes them, and reports how many bytes the write
//! took, which drops those bytes from the front of the queue.
//!
//! Sharing the queue between threads (a lock around it) is left to the
//! caller: here every operation has the queue to itself.

use vstd::prelude::*;
use std::collections::VecDeque;
use std::io::IoSlice;
use bytes::Bytes;

use crate::async_write_utility::io_slices_view;
use crate::chunks::{
    all_nonempty, fits_io_slices, drop_written, lemma_drop_written_all, lemma_drop_written_fits,
    lemma_drop_written_flatten,
    lemma_flatten_append, lemma_flatten_len, lemma_drop_written_at, lemma_prefix_len_monotone,
    lemma_prefix_len_nonneg, lemma_prefix_len_step, prefix_len, total_len,
};
use crate::foreign::{bytes_advance, bytes_as_slice, bytes_len, bytes_view, deque_capacity, deque_reserve_exact};
use crate::reusable_io_slices::ReusableIoSlices;

verus! {

/// The bytes of each buffer of `s`.
pub open spec fn bytes_seq_view(s: Seq<Bytes>) -> Seq<Seq<u8>> {
    s.map_values(|b: Bytes| bytes_view(b))
}

/// The chunks of `s` that hold at least one byte, in their order.
pub open spec fn nonempty_chunks(s: Seq<Seq<u8>>) -> Seq<Seq<u8>> {
    s.filter(|c: Seq<u8>| c.len() > 0)
}

/// Keeping the non-empty chunks drops the empty ones and nothing else: of
/// no chunks nothing is kept, and a chunk added at the end is kept, at the
/// end, exactly when it holds at least one byte, whatever its length.
pub proof fn lemma_nonempty_chunks_keeps_every_nonempty_chunk(s: Seq<Seq<u8>>, b: Seq<u8>)
    ensures
        nonempty_chunks(Seq::<Seq<u8>>::empty()) == Seq::<Seq<u8>>::empty(),
        b.len() > 0 ==> nonempty_chunks(s.push(b)) == nonempty_chunks(s).push(b),
        b.len() == 0 ==> nonempty_chunks(s.push(b)) == nonempty_chunks(s),
{
    reveal_with_fuel(Seq::filter, 1);
    assert(nonempty_chunks(Seq::<Seq<u8>>::empty()) =~= Seq::<Seq<u8>>::empty());
    s.lemma_filter_push(b, |c: Seq<u8>| c.len() > 0);
}

/// The queue's buffers once `b` is pushed: an empty buffer is not queued.
pub open spec fn pushed(q: Seq<Seq<u8>>, b: Seq<u8>) -> Seq<Seq<u8>> {
    if b.len() == 0 {
        q
    } else {
        q.push(b)
    }
}

/// Extending a queue by a list of buffers queues them exactly as pushing
/// each of them would, one after the other in the list's order.
pub proof fn lemma_extend_is_pushes_in_order(q: Seq<Seq<u8>>, items: Seq<Seq<u8>>)
    ensures
        items.fold_left(q, |acc: Seq<Seq<u8>>, b: Seq<u8>| pushed(acc, b)) == q + nonempty_chunks(
            items,
        ),
    decreases items.len(),
{
    let f = |acc: Seq<Seq<u8>>, b: Seq<u8>| pushed(acc, b);
    if items.len() == 0 {
        reveal_with_fuel(Seq::filter, 1);
        assert(q + nonempty_chunks(items) =~= q);
    } else {
        let init = items.drop_last();
        lemma_extend_is_pushes_in_order(q, init);
        assert(items =~= init.push(items.last()));
        init.lemma_filter_push(items.last(), |c: Seq<u8>| c.len() > 0);
        assert(items.fold_left(q, f) == f(init.fold_left(q, f), items.last()));
        if items.last().len() > 0 {
            assert((q + nonempty_chunks(init)).push(items.last()) =~= q + nonempty_chunks(
                init,
            ).push(items.last()));
        }
    }
}

/// Unbounded mpsc [`Bytes`] queue designed for grouping writes into one
/// vectored write.
#[derive(Debug)]
pub struct MpScBytesQueue {
    bytes_queue: VecDeque<Bytes>,
    io_slice_buf: ReusableIoSlices,
}

impl View for MpScBytesQueue {
    type V = Seq<Seq<u8>>;

    /// The bytes of the queued buffers, front first.
    closed spec fn view(&self) -> Seq<Seq<u8>> {
        bytes_seq_view(self.bytes_queue@)
    }
}

impl MpScBytesQueue {
    /// The queue holds no empty buffer.
    pub closed spec fn wf(&self) -> bool {
        &&& all_nonempty(self@)
        &&& self.io_slice_buf@.len() > 0
    }

    /// The most buffers that one vectored write gathers.
    pub closed spec fn io_slices_cap(&self) -> nat {
        self.io_slice_buf@.len()
    }

    /// A well-formed queue holds no empty buffer, and one vectored write
    /// gathers at least one buffer.
    pub proof fn lemma_wf(&self)
        requires
            self.wf(),
        ensures
            all_nonempty(self@),
            self.io_slices_cap() > 0,
    {
    }

    /// * `cap` - This is the maximum amount of `io_slice`s that
    ///   `Buffers::get_io_slices()` can return.
    ///
    /// Creates an empty queue with space for at least `cap` amount of
    /// elements.
    pub fn new(cap: usize) -> (r: Self)
        requires
            cap > 0,
        ensures
            r.wf(),
            r@ == Seq::<Seq<u8>>::empty(),
            r.io_slices_cap() == cap,
    {
        let bytes_queue: VecDeque<Bytes> = VecDeque::with_capacity(cap);
        let r = MpScBytesQueue { bytes_queue, io_slice_buf: ReusableIoSlices::new(cap) };
        assert(r@ =~= Seq::<Seq<u8>>::empty());
        r
    }

    /// The number of buffers the queue can hold without allocating.
    pub fn capacity(&self) -> (r: usize)
        ensures
            r >= self@.len(),
    {
        deque_capacity(&self.bytes_queue)
    }

    /// I/O slices over the first `count` buffers; every one of them is
    /// non-empty.
    pub fn front_io_slices(&self, count: usize) -> (r: Vec<IoSlice<'_>>)
        requires
            self.wf(),
            count <= self@.len(),
            fits_io_slices(self@.take(count as int)),
        ensures
            io_slices_view(r@) == self@.take(count as int),
            all_nonempty(io_slices_view(r@)),
    {
        let mut r: Vec<IoSlice<'_>> = Vec::with_capacity(count);
        let mut i: usize = 0;
        while i < count
            invariant
                i <= count,
                count <= self@.len(),
                self.wf(),
                fits_io_slices(self@.take(count as int)),
                io_slices_view(r@) == self@.take(i as int),
            decreases count - i,
        {
            let b = &self.bytes_queue[i];
            assert(self@.take(count as int)[i as int] == bytes_view(*b));
            assert(self@.take(count as int)[i as int].len() <= u32::MAX);
            r.push(IoSlice::new(bytes_as_slice(b)));
            proof {
                assert(self@.take(i + 1) =~= self@.take(i as int).push(bytes_view(*b)));
            }
            i = i + 1;
        }
        r
    }

    /// The number of buffers queued.
    pub fn len(&self) -> (r: usize)
        ensures
            r == self@.len(),
    {
        self.bytes_queue.len()
    }

    /// New handles to the first `count` buffers, front first.
    pub fn front_bytes(&self, count: usize) -> (r: Vec<Bytes>)
        requires
            count <= self@.len(),
        ensures
            bytes_seq_view(r@) == self@.take(count as int),
    {
        let mut r: Vec<Bytes> = Vec::with_capacity(count);
        let mut i: usize = 0;
        while i < count
            invariant
                i <= count,
                count <= self@.len(),
                bytes_seq_view(r@) == self@.take(i as int),
            decreases count - i,
        {
            let b = self.bytes_queue[i].clone();
            proof {
                assert(self@.take(i + 1) =~= self@.take(i as int).push(bytes_view(b)));
                assert(bytes_seq_view(r@.push(b)) =~= bytes_seq_view(r@).push(bytes_view(b)));
            }
            r.push(b);
            i = i + 1;
        }
        r
    }

    /// A handle that pushes while holding the queue.
    pub fn get_pusher(&mut self) -> (r: QueuePusher<'_>)
        ensures
            *r.0 == *old(self),
            *final(r.0) == *final(self),
    {
        QueuePusher(self)
    }

    /// Appends `bytes`, unless it is empty.
    pub fn push(&mut self, bytes: Bytes)
        requires
            old(self).wf(),
        ensures
            final(self).wf(),
            final(self).io_slices_cap() == old(self).io_slices_cap(),
            final(self)@ == pushed(old(self)@, bytes_view(bytes)),
            bytes_view(bytes).len() > 0 ==> final(self)@ == old(self)@.push(bytes_view(bytes)),
            bytes_view(bytes).len() == 0 ==> final(self)@ == old(self)@,
    {
        if bytes_len(&bytes) != 0 {
            let ghost before = self.bytes_queue@;
            self.bytes_queue.push_back(bytes);
            assert(bytes_seq_view(self.bytes_queue@) =~= bytes_seq_view(before).push(bytes_view(bytes)));
        }
    }

    /// Appends the non-empty buffers of `bytes_array`, in order.
    pub fn extend<const N: usize>(&mut self, bytes_array: [Bytes; N])
        requires
            old(self).wf(),
        ensures
            final(self).wf(),
            final(self).io_slices_cap() == old(self).io_slices_cap(),
            final(self)@ == old(self)@ + nonempty_chunks(bytes_seq_view(bytes_array@)),
    {
        deque_reserve_exact(&mut self.bytes_queue, N);
        let ghost start = self@;
        let mut i: usize = 0;
        while i < N
            invariant
                i <= N,
                N == bytes_array@.len(),
                self.wf(),
                self.io_slices_cap() == old(self).io_slices_cap(),
                start == old(self)@,
                self@ == start + nonempty_chunks(bytes_seq_view(bytes_array@.take(i as int))),
            decreases N - i,
        {
            let b = bytes_array[i].clone();
            proof {
                assert(bytes_array@.take(i + 1) =~= bytes_array@.take(i as int).push(bytes_array@[i as int]));
                assert(bytes_seq_view(bytes_array@.take(i + 1)) =~= bytes_seq_view(bytes_array@.take(i as int)).push(bytes_view(b)));
                bytes_seq_view(bytes_array@.take(i as int)).lemma_filter_push(bytes_view(b), |c: Seq<u8>| c.len() > 0);
            }
            self.push(b);
            i = i + 1;
        }
        assert(bytes_array@.take(N as int) =~= bytes_array@);
    }

    /// Appends the non-empty buffers of `iter`, in order.
    pub fn extend_from_iter(&mut self, iter: Vec<Bytes>)
        requires
            old(self).wf(),
        ensures
            final(self).wf(),
            final(self).io_slices_cap() == old(self).io_slices_cap(),
            final(self)@ == old(self)@ + nonempty_chunks(bytes_seq_view(iter@)),
    {
        let ghost items = iter@;
        let ghost start = self@;
        for b in it: iter
            invariant
                self.wf(),
                self.io_slices_cap() == old(self).io_slices_cap(),
                start == old(self)@,
                it.seq() == items,
                self@ == start + nonempty_chunks(bytes_seq_view(items.take(it.index() as int))),
        {
            proof {
                let i = it.index() as int;
                assert(items.take(i + 1) =~= items.take(i).push(b));
                assert(bytes_seq_view(items.take(i + 1)) =~= bytes_seq_view(items.take(i)).push(bytes_view(b)));
                bytes_seq_view(items.take(i)).lemma_filter_push(bytes_view(b), |c: Seq<u8>| c.len() > 0);
            }
            self.push(b);
        }
        assert(items.take(items.len() as int) =~= items);
    }

    /// Reserves room for `iter` first, then appends its non-empty buffers,
    /// in order.
    pub fn extend_from_exact_size_iter(&mut self, iter: Vec<Bytes>)
        requires
            old(self).wf(),
        ensures
            final(self).wf(),
            final(self).io_slices_cap() == old(self).io_slices_cap(),
            final(self)@ == old(self)@ + nonempty_chunks(bytes_seq_view(iter@)),
    {
        deque_reserve_exact(&mut self.bytes_queue, iter.len());
        self.extend_from_iter(iter);
    }

    /// Reserves room for at least `len` more buffers.
    pub fn reserve(&mut self, len: usize)
        ensures
            final(self)@ == old(self)@,
            final(self).wf() == old(self).wf(),
            final(self).io_slices_cap() == old(self).io_slices_cap(),
    {
        self.bytes_queue.reserve(len);
    }

    /// Reserves room for exactly `len` more buffers.
    pub fn reserve_exact(&mut self, len: usize)
        ensures
            final(self)@ == old(self)@,
            final(self).wf() == old(self).wf(),
            final(self).io_slices_cap() == old(self).io_slices_cap(),
    {
        deque_reserve_exact(&mut self.bytes_queue, len);
    }

    fn get_buffers_impl(&mut self) -> (r: Buffers<'_>)
        requires
            old(self).wf(),
        ensures
            r.wf(),
            *r.queue == *old(self),
            *final(r.queue) == *final(self),
            r.io_slice_start == 0,
            r.io_slice_end == if old(self)@.len() <= old(self).io_slices_cap() {
                old(self)@.len()
            } else {
                old(self).io_slices_cap()
            },
    {
        let len = self.bytes_queue.len();
        let io_slice_buf_len = self.io_slice_buf.get().len();
        let end = if len <= io_slice_buf_len {
            len
        } else {
            io_slice_buf_len
        };
        Buffers { queue: self, io_slice_start: 0, io_slice_end: end }
    }

    /// Return the buffers that need to be flushed: the first ones, as many
    /// as one vectored write gathers.
    ///
    /// Since the queue is held exclusively here, no other flush can be in
    /// progress and this always returns `Some`.
    pub fn try_get_buffers(&mut self) -> (r: Option<Buffers<'_>>)
        requires
            old(self).wf(),
        ensures
            r matches Some(b) && {
                &&& b.wf()
                &&& *b.queue == *old(self)
                &&& *final(b.queue) == *final(self)
                &&& b.io_slice_start == 0
                &&& b.io_slice_end == if old(self)@.len() <= old(self).io_slices_cap() {
                    old(self)@.len()
                } else {
                    old(self).io_slices_cap()
                }
            },
    {
        Some(self.get_buffers_impl())
    }

    /// Return the buffers that need to be flushed: the first ones, as many
    /// as one vectored write gathers.
    pub fn get_buffers_blocked(&mut self) -> (r: Buffers<'_>)
        requires
            old(self).wf(),
        ensures
            r.wf(),
            *r.queue == *old(self),
            *final(r.queue) == *final(self),
            r.io_slice_start == 0,
            r.io_slice_end == if old(self)@.len() <= old(self).io_slices_cap() {
                old(self)@.len()
            } else {
                old(self).io_slices_cap()
            },
    {
        self.get_buffers_impl()
    }
}

/// QueuePusher holds the queue, thus it is guaranteed that all bytes
/// pushed/extended will be inserted into the queue in the same order
/// push/extend is called and the `bytes_array`'s original order.
#[derive(Debug)]
pub struct QueuePusher<'a>(pub &'a mut MpScBytesQueue);

impl<'a> QueuePusher<'a> {
    /// Appends `bytes`, unless it is empty.
    pub fn push(&mut self, bytes: Bytes)
        requires
            old(self).0.wf(),
        ensures
            final(self).0.wf(),
            final(self).0.io_slices_cap() == old(self).0.io_slices_cap(),
            *final(final(self).0) == *final(old(self).0),
            final(self).0@ == pushed(old(self).0@, bytes_view(bytes)),
            bytes_view(bytes).len() > 0 ==> final(self).0@ == old(self).0@.push(bytes_view(bytes)),
            bytes_view(bytes).len() == 0 ==> final(self).0@ == old(self).0@,
    {
        self.0.push(bytes)
    }

    /// Appends the non-empty buffers of `bytes_array`, in order.
    pub fn extend<const N: usize>(&mut self, bytes_array: [Bytes; N])
        requires
            old(self).0.wf(),
        ensures
            final(self).0.wf(),
            final(self).0.io_slices_cap() == old(self).0.io_slices_cap(),
            *final(final(self).0) == *final(old(self).0),
            final(self).0@ == old(self).0@ + nonempty_chunks(bytes_seq_view(bytes_array@)),
    {
        self.0.extend(bytes_array)
    }

    /// Appends the non-empty buffers of `iter`, in order.
    pub fn extend_from_iter(&mut self, iter: Vec<Bytes>)
        requires
            old(self).0.wf(),
        ensures
            final(self).0.wf(),
            final(self).0.io_slices_cap() == old(self).0.io_slices_cap(),
            *final(final(self).0) == *final(old(self).0),
            final(self).0@ == old(self).0@ + nonempty_chunks(bytes_seq_view(iter@)),
    {
        self.0.extend_from_iter(iter)
    }

    /// Reserves room for `iter` first, then appends its non-empty buffers,
    /// in order.
    pub fn extend_from_exact_size_iter(&mut self, iter: Vec<Bytes>)
        requires
            old(self).0.wf(),
        ensures
            final(self).0.wf(),
            final(self).0.io_slices_cap() == old(self).0.io_slices_cap(),
            *final(final(self).0) == *final(old(self).0),
            final(self).0@ == old(self).0@ + nonempty_chunks(bytes_seq_view(iter@)),
    {
        self.0.extend_from_exact_size_iter(iter)
    }

    /// Reserves room for at least `len` more buffers.
    pub fn reserve(&mut self, len: usize)
        ensures
            final(self).0@ == old(self).0@,
            final(self).0.wf() == old(self).0.wf(),
            final(self).0.io_slices_cap() == old(self).0.io_slices_cap(),
            *final(final(self).0) == *final(old(self).0),
    {
        self.0.reserve(len)
    }

    /// Reserves room for exactly `len` more buffers.
    pub fn reserve_exact(&mut self, len: usize)
        ensures
            final(self).0@ == old(self).0@,
            final(self).0.wf() == old(self).0.wf(),
            final(self).0.io_slices_cap() == old(self).0.io_slices_cap(),
            *final(final(self).0) == *final(old(self).0),
    {
        self.0.reserve_exact(len)
    }
}

/// The buffers at the front of the queue that one vectored write takes.
///
/// `io_slice_end - io_slice_start` counts the buffers still to write; they
/// are the first ones of the queue.
#[derive(Debug)]
pub struct Buffers<'a> {
    pub queue: &'a mut MpScBytesQueue,
    pub io_slice_start: usize,
    pub io_slice_end: usize,
}

impl<'a> Buffers<'a> {
    /// The window lies within the queue.
    pub open spec fn wf(&self) -> bool {
        &&& self.queue.wf()
        &&& self.io_slice_start <= self.io_slice_end
        &&& self.io_slice_end - self.io_slice_start <= self.queue@.len()
    }

    /// The bytes of the buffers still to write.
    pub open spec fn window(&self) -> Seq<Seq<u8>> {
        self.queue@.take(self.io_slice_end - self.io_slice_start)
    }

    /// Return `IoSlice`s that every one of them is non-empty.
    pub fn get_io_slices(&self) -> (r: Vec<IoSlice<'_>>)
        requires
            self.wf(),
            fits_io_slices(self.window()),
        ensures
            io_slices_view(r@) == self.window(),
            all_nonempty(io_slices_view(r@)),
    {
        self.queue.front_io_slices(self.io_slice_end - self.io_slice_start)
    }

    /// Return `true` if no `io_slices` is left.
    pub fn is_empty(&self) -> (r: bool)
        ensures
            r == (self.io_slice_start == self.io_slice_end),
    {
        self.io_slice_start == self.io_slice_end
    }

    /// Drain all [`Bytes`] stored in [`MpScBytesQueue`] so that they can
    /// move in a zero-copy manner.
    pub fn drain_bytes(self) -> (r: DrainBytes<'a>)
        ensures
            *r.queue == *old(self.queue),
            *final(r.queue) == *final(self.queue),
    {
        DrainBytes { queue: self.queue }
    }

    /// * `n` - bytes successfully written.
    ///
    /// Return `true` if another iteration is required, `false` if the loop
    /// can terminate right away.
    ///
    /// After this function call, `MpScBytesQueue` will have `n` buffered
    /// bytes removed: the buffers written whole leave the queue and the
    /// first one written in part keeps only its unwritten bytes. Written
    /// bytes past the end of the window are ignored.
    pub fn advance(&mut self, n: usize) -> (more: bool)
        requires
            old(self).wf(),
            n > 0,
        ensures
            final(self).wf(),
            all_nonempty(final(self).queue@),
            *final(final(self).queue) == *final(old(self).queue),
            final(self).queue.io_slices_cap() == old(self).queue.io_slices_cap(),
            final(self).io_slice_end == old(self).io_slice_end,
            final(self).window() == drop_written(old(self).window(), n as int),
            fits_io_slices(old(self).window()) ==> fits_io_slices(final(self).window()),
            final(self).queue@ == final(self).window() + old(self).queue@.skip(
                old(self).io_slice_end - old(self).io_slice_start,
            ),
            more == (n < total_len(old(self).window())),
            more == (final(self).io_slice_start < final(self).io_slice_end),
            n <= total_len(old(self).window()) ==> final(self).queue@.flatten() == old(
                self,
            ).queue@.flatten().skip(n as int),
    {
        proof {
            if fits_io_slices(self.window()) {
                lemma_drop_written_fits(self.window(), n as int);
            }
            let w = self.window();
            let rest = self.queue@.skip(w.len() as int);
            assert(self.queue@ =~= w + rest);
            lemma_flatten_append(w, rest);
            lemma_flatten_len(w);
            if n <= total_len(w) {
                lemma_drop_written_flatten(w, n as int);
                lemma_flatten_append(drop_written(w, n as int), rest);
                assert((w.flatten() + rest.flatten()).skip(n as int) =~= w.flatten().skip(n as int)
                    + rest.flatten());
            }
        }
        self.advance_window(n)
    }

    fn advance_window(&mut self, n: usize) -> (more: bool)
        requires
            old(self).wf(),
            n > 0,
        ensures
            final(self).wf(),
            *final(final(self).queue) == *final(old(self).queue),
            final(self).queue.io_slices_cap() == old(self).queue.io_slices_cap(),
            final(self).io_slice_end == old(self).io_slice_end,
            final(self).window() == drop_written(old(self).window(), n as int),
            final(self).queue@ == final(self).window() + old(self).queue@.skip(
                old(self).io_slice_end - old(self).io_slice_start,
            ),
            more == (n < total_len(old(self).window())),
            more == (final(self).io_slice_start < final(self).io_slice_end),
    {
        proof {
            lemma_prefix_len_nonneg(self.window(), self.window().len() as int);
        }
        if self.io_slice_start == self.io_slice_end {
            proof {
                lemma_drop_written_all(self.window(), n as int);
                assert(self.queue@.skip(0) =~= self.queue@);
            }
            return false;
        }
        let ghost w = self.window();
        let ghost rest = self.queue@.skip(w.len() as int);
        let ghost k0 = self.io_slice_start;
        let ghost n0 = n as int;
        let mut left = n;
        proof {
            assert(self.queue@ =~= w + rest);
            assert(w.skip(0) =~= w);
        }
        loop
            invariant
                w == old(self).window(),
                rest == old(self).queue@.skip(w.len() as int),
                w.len() == old(self).io_slice_end - k0,
                all_nonempty(w),
                self.queue.wf(),
                self.queue.io_slices_cap() == old(self).queue.io_slices_cap(),
                *final(self.queue) == *final(old(self).queue),
                self.io_slice_end == old(self).io_slice_end,
                k0 == old(self).io_slice_start,
                k0 <= self.io_slice_start < self.io_slice_end,
                n0 == n,
                0 < left,
                left == n0 - prefix_len(w, self.io_slice_start - k0),
                self.queue@ == w.skip(self.io_slice_start - k0) + rest,
            decreases self.io_slice_end - self.io_slice_start,
        {
            let ghost c = self.io_slice_start - k0;
            proof {
                assert(self.queue@.len() > 0);
                assert(self.queue@[0] == w[c]);
                lemma_prefix_len_step(w, c);
            }
            let front_len = bytes_len(&self.queue.bytes_queue[0]);
            if front_len <= left {
                let ghost before = self.queue.bytes_queue@;
                left = left - front_len;
                let _ = self.queue.bytes_queue.pop_front();
                self.io_slice_start = self.io_slice_start + 1;
                proof {
                    assert(bytes_seq_view(self.queue.bytes_queue@) =~= bytes_seq_view(before).drop_first());
                    assert(w.skip(c + 1) + rest =~= (w.skip(c) + rest).drop_first());
                }
                if self.io_slice_start == self.io_slice_end {
                    proof {
                        lemma_drop_written_all(w, n0);
                        assert(w.skip(w.len() as int) =~= Seq::<Seq<u8>>::empty());
                        assert(self.queue@ =~= rest);
                        assert(self.window() =~= Seq::<Seq<u8>>::empty());
                    }
                    return false;
                }
                if left == 0 {
                    proof {
                        lemma_prefix_len_step(w, c + 1);
                        lemma_prefix_len_monotone(w, c + 2, w.len() as int);
                        lemma_drop_written_at(w, n0, c + 1);
                        assert(w[c + 1].skip(0) =~= w[c + 1]);
                        assert(w.skip(c + 1).update(0, w[c + 1].skip(0)) =~= w.skip(c + 1));
                        assert(self.window() =~= w.skip(c + 1));
                    }
                    return true;
                }
            } else {
                let ghost before = self.queue.bytes_queue@;
                let popped = self.queue.bytes_queue.pop_front();
                match popped {
                    Some(mut front) => {
                        bytes_advance(&mut front, left);
                        self.queue.bytes_queue.push_front(front);
                        proof {
                            lemma_prefix_len_monotone(w, c + 1, w.len() as int);
                            lemma_drop_written_at(w, n0, c);
                            let t = w.skip(c).update(0, w[c].skip(n0 - prefix_len(w, c)));
                            assert(bytes_seq_view(self.queue.bytes_queue@) =~= seq![bytes_view(front)] + bytes_seq_view(before).drop_first());
                            assert(self.queue@ =~= t + rest);
                            assert(self.window() =~= t);
                        }
                        return true;
                    },
                    None => vstd::pervasive::unreached(),
                }
            }
        }
    }
}

/// Return bytes in the same order they are pushed.
///
/// This struct holds the [`MpScBytesQueue`], which prevents new [`Bytes`]
/// from being pushed meanwhile.
#[derive(Debug)]
pub struct DrainBytes<'a> {
    pub queue: &'a mut MpScBytesQueue,
}

impl<'a> DrainBytes<'a> {
    /// The next buffer, front first; `None` once the queue is empty.
    pub fn next(&mut self) -> (r: Option<Bytes>)
        requires
            old(self).queue.wf(),
        ensures
            final(self).queue.wf(),
            final(self).queue.io_slices_cap() == old(self).queue.io_slices_cap(),
            *final(final(self).queue) == *final(old(self).queue),
            old(self).queue@.len() == 0 ==> r is None && final(self).queue@ == old(self).queue@,
            old(self).queue@.len() > 0 ==> (r matches Some(b) && bytes_view(b) == old(self).queue@[0]
                && final(self).queue@ == old(self).queue@.drop_first()),
    {
        let ghost before = self.queue.bytes_queue@;
        let r = self.queue.bytes_queue.pop_front();
        proof {
            if before.len() > 0 {
                assert(bytes_seq_view(self.queue.bytes_queue@) =~= bytes_seq_view(before).drop_first());
            }
        }
        r
    }

    /// Takes every buffer left, front first: together they are the queue's
    /// buffers in the order they were pushed, and the queue is left empty.
    pub fn collect(self) -> (r: Vec<Bytes>)
        requires
            old(self.queue).wf(),
        ensures
            bytes_seq_view(r@) == old(self.queue)@,
            final(self.queue).wf(),
            final(self.queue)@ == Seq::<Seq<u8>>::empty(),
            final(self.queue).io_slices_cap() == old(self.queue).io_slices_cap(),
    {
        let ghost start = self.queue@;
        let ghost cap = self.queue.io_slices_cap();
        let mut drain = self;
        let mut r: Vec<Bytes> = Vec::new();
        loop
            invariant
                drain.queue.wf(),
                drain.queue.io_slices_cap() == cap,
                *final(drain.queue) == *final(old(self.queue)),
                start == old(self.queue)@,
                cap == old(self.queue).io_slices_cap(),
                bytes_seq_view(r@) + drain.queue@ == start,
            decreases drain.queue@.len(),
        {
            let ghost before = drain.queue@;
            match drain.next() {
                Some(b) => {
                    proof {
                        assert(bytes_seq_view(r@.push(b)) =~= bytes_seq_view(r@).push(bytes_view(b)));
                        assert(bytes_seq_view(r@).push(bytes_view(b)) + before.drop_first()
                            =~= bytes_seq_view(r@) + before);
                    }
                    r.push(b);
                },
                None => {
                    assert(bytes_seq_view(r@) + drain.queue@ =~= bytes_seq_view(r@));
                    return r;
                },
            }
        }
    }

    /// The number of buffers left, as a lower and an upper bound.
    pub fn size_hint(&self) -> (r: (usize, Option<usize>))
        ensures
            r.0 == old(self.queue)@.len(),
            r.1 == Some(r.0),
    {
        let len = self.queue.bytes_queue.len();
        (len, Some(len))
    }
}

} // verus!
