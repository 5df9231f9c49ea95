//! Writing a list of [`Bytes`] with vectored writes.
//!
//! The loop that issues the writes runs outside the library (it awaits the
//! writer). Each round it asks [`write_bytes_io_slices`] for the slices to
//! offer, hands the count of bytes the write took to
//! [`advance_written_bytes`], and at the end lets [`retain_unwritten_bytes`]
//! put the buffers not written back in the list.

use vstd::prelude::*;
use std::io::IoSlice;
use bytes::Bytes;

use crate::async_write_utility::{io_slices_view, WriteProgress};
use crate::chunks::{
    drop_written, fits_io_slices, lemma_drop_written_at,
    lemma_drop_written_flatten,
    lemma_prefix_len_monotone, lemma_prefix_len_nonneg, lemma_prefix_len_step, prefix_len,
    total_len,
};
use crate::foreign::{bytes_as_slice, bytes_len, bytes_slice_from, bytes_view};
use crate::queue::bytes_seq_view;
use crate::reusable_io_slices::ReusableIoSlices;

verus! {

/// The I/O slices for the next vectored write of `buffer[start..]`: its
/// first buffers, as many as `reusable_io_slices` has slots.
pub fn write_bytes_io_slices<'b>(
    buffer: &'b [Bytes],
    start: usize,
    reusable_io_slices: &ReusableIoSlices,
) -> (r: Vec<IoSlice<'b>>)
    requires
        start <= buffer@.len(),
        fits_io_slices(bytes_seq_view(buffer@).skip(start as int)),
    ensures
        r@.len() == if buffer@.len() - start <= reusable_io_slices@.len() {
            buffer@.len() - start
        } else {
            reusable_io_slices@.len() as int
        },
        io_slices_view(r@) == bytes_seq_view(buffer@).skip(start as int).take(r@.len() as int),
{
    let cap = reusable_io_slices.get().len();
    let blen = buffer.len();
    let avail = blen - start;
    let count = if avail <= cap {
        avail
    } else {
        cap
    };
    let mut r: Vec<IoSlice<'b>> = Vec::with_capacity(count);
    let mut i: usize = 0;
    while i < count
        invariant
            i <= count,
            count + start <= blen,
            blen == buffer@.len(),
            start <= buffer@.len(),
            fits_io_slices(bytes_seq_view(buffer@).skip(start as int)),
            io_slices_view(r@) == bytes_seq_view(buffer@).skip(start as int).take(i as int),
        decreases count - i,
    {
        let b = &buffer[start + i];
        assert(bytes_seq_view(buffer@).skip(start as int)[i as int] == bytes_view(*b));
        assert(bytes_seq_view(buffer@).skip(start as int)[i as int].len() <= u32::MAX);
        r.push(IoSlice::new(bytes_as_slice(b)));
        proof {
            assert(bytes_seq_view(buffer@).skip(start as int).take(i + 1) =~= bytes_seq_view(
                buffer@,
            ).skip(start as int).take(i as int).push(bytes_view(*b)));
        }
        i = i + 1;
    }
    r
}

/// Accounts for a vectored write of `buffer[start..]` that took `written`
/// bytes.
///
/// The buffers written whole are passed over (an empty buffer counts as
/// written whole once the bytes before it are), and a buffer written in part
/// is replaced by a handle to its unwritten bytes. What remains from the
/// returned index on is the unwritten rest, cut as before.
///
/// `buffer` should hold no empty `Bytes`: a write offered only empty slices
/// takes nothing, which reads as `WriteZero`.
pub fn advance_written_bytes(buffer: &mut Vec<Bytes>, start: usize, written: usize) -> (progress:
    WriteProgress)
    requires
        start < old(buffer)@.len(),
    ensures
        final(buffer)@.len() == old(buffer)@.len(),
        ({
            let rest = bytes_seq_view(old(buffer)@).skip(start as int);
            match progress {
                WriteProgress::WriteZero => {
                    &&& written == 0
                    &&& final(buffer)@ == old(buffer)@
                },
                WriteProgress::Done => {
                    &&& written > 0
                    &&& total_len(rest) <= written
                    &&& final(buffer)@ == old(buffer)@
                },
                WriteProgress::Remaining(k) => {
                    &&& written > 0
                    &&& written < total_len(rest)
                    &&& start <= k < old(buffer)@.len()
                    &&& forall|i: int|
                        0 <= i < old(buffer)@.len() && i != k ==> final(buffer)@[i] == old(
                            buffer,
                        )@[i]
                    &&& bytes_seq_view(final(buffer)@).skip(k as int) == drop_written(
                        rest,
                        written as int,
                    )
                    &&& bytes_seq_view(final(buffer)@).skip(k as int).flatten() == rest.flatten().skip(
                        written as int,
                    )
                },
            }
        }),
{
    if written == 0 {
        return WriteProgress::WriteZero;
    }
    let len = buffer.len();
    let ghost rest = bytes_seq_view(buffer@).skip(start as int);
    proof {
        lemma_prefix_len_nonneg(rest, rest.len() as int);
    }
    let mut k = start;
    let mut left = written;
    loop
        invariant
            start <= k < len,
            len == buffer@.len(),
            buffer@ == old(buffer)@,
            rest == bytes_seq_view(old(buffer)@).skip(start as int),
            rest.len() == len - start,
            0 < written,
            left == written - prefix_len(rest, k - start),
        decreases len - k,
    {
        let ghost c = k - start;
        proof {
            assert(rest[c] == bytes_view(buffer@[k as int]));
            lemma_prefix_len_step(rest, c);
        }
        let l = bytes_len(&buffer[k]);
        if l <= left {
            left = left - l;
            k = k + 1;
            if k == len {
                return WriteProgress::Done;
            }
        } else {
            if left != 0 {
                let trimmed = bytes_slice_from(&buffer[k], left);
                buffer.set(k, trimmed);
            }
            proof {
                lemma_prefix_len_monotone(rest, c + 1, rest.len() as int);
                lemma_drop_written_at(rest, written as int, c);
                lemma_drop_written_flatten(rest, written as int);
                assert(rest[c].skip(0) =~= rest[c]);
                assert(bytes_seq_view(buffer@).skip(k as int) =~= rest.skip(c).update(
                    0,
                    rest[c].skip(left as int),
                ));
            }
            return WriteProgress::Remaining(k);
        }
    }
}

/// Keeps in `buffer` only the buffers from `start` on, the ones not
/// written yet.
pub fn retain_unwritten_bytes(buffer: &mut Vec<Bytes>, start: usize)
    requires
        start <= old(buffer)@.len(),
    ensures
        final(buffer)@ == old(buffer)@.skip(start as int),
{
    let tail = buffer.split_off(start);
    *buffer = tail;
}

} // verus!
