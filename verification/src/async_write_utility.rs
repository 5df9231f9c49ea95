//! Writing a whole list of I/O slices with vectored writes.
//!
//! A vectored write may take fewer bytes than were offered. The loop that
//! issues the writes runs outside the library (it awaits the writer); after
//! each write it hands the count of bytes taken to [`advance_io_slices`],
//! which drops the slices written whole and trims the first slice written in
//! part, and says whether to stop.

use vstd::prelude::*;
use std::io::IoSlice;

use crate::chunks::{
    lemma_flatten_len, lemma_flatten_skip_prefix, lemma_flatten_trim_first, lemma_prefix_len_monotone,
    lemma_prefix_len_nonneg, lemma_prefix_len_step, prefix_len, total_len,
};
use crate::foreign::{io_slice_advance, io_slice_bytes, io_slice_view};

verus! {

/// The bytes that each I/O slice refers to.
pub open spec fn io_slices_view(bufs: Seq<IoSlice>) -> Seq<Seq<u8>> {
    bufs.map_values(|s: IoSlice| io_slice_view(s))
}

/// What is left to do once a vectored write has returned.
#[derive(PartialEq, Eq, Structural, Clone, Copy, Debug)]
pub enum WriteProgress {
    /// Every byte has been written.
    Done,
    /// The writer took no byte although bytes remained
    /// (`std::io::ErrorKind::WriteZero`).
    WriteZero,
    /// Bytes remain, in the slices from this index on.
    Remaining(usize),
}

/// Accounts for a vectored write of `bufs[start..]` that took `written`
/// bytes.
///
/// The slices written whole are passed over; if the write stopped inside a
/// slice, that slice is trimmed to its unwritten part. A write that stops
/// exactly at the end of a slice leaves the next slice untouched, even an
/// empty one, so that the next write is issued from there.
pub fn advance_io_slices(bufs: &mut [IoSlice<'_>], start: usize, written: usize) -> (progress:
    WriteProgress)
    requires
        start < old(bufs)@.len(),
    ensures
        final(bufs)@.len() == old(bufs)@.len(),
        ({
            let rest = io_slices_view(old(bufs)@).skip(start as int);
            match progress {
                WriteProgress::WriteZero => {
                    &&& written == 0
                    &&& final(bufs)@ == old(bufs)@
                },
                WriteProgress::Done => {
                    &&& written > 0
                    &&& total_len(rest) <= written
                    &&& forall|j: int| 1 <= j < rest.len() ==> prefix_len(rest, j) < written
                    &&& final(bufs)@ == old(bufs)@
                },
                WriteProgress::Remaining(k) => {
                    let c = k - start;
                    let trimmed = written - prefix_len(rest, c);
                    &&& written > 0
                    &&& start <= k < old(bufs)@.len()
                    &&& forall|j: int| 1 <= j < c ==> prefix_len(rest, j) < written
                    &&& 0 <= trimmed
                    &&& ((c > 0 && trimmed == 0) || trimmed < rest[c].len())
                    &&& forall|i: int|
                        0 <= i < old(bufs)@.len() && i != k ==> final(bufs)@[i] == old(bufs)@[i]
                    &&& io_slice_view(final(bufs)@[k as int]) == rest[c].skip(trimmed)
                    &&& io_slices_view(final(bufs)@).skip(k as int).flatten()
                        == rest.flatten().skip(written as int)
                },
            }
        }),
{
    if written == 0 {
        return WriteProgress::WriteZero;
    }
    let len = bufs.len();
    let ghost rest = io_slices_view(bufs@).skip(start as int);
    let mut k = start;
    let mut n = written;
    loop
        invariant
            start <= k < len,
            len == bufs@.len(),
            bufs@ == old(bufs)@,
            rest == io_slices_view(old(bufs)@).skip(start as int),
            0 < n,
            0 < written,
            n == written - prefix_len(rest, k - start),
            forall|j: int| 1 <= j <= k - start ==> prefix_len(rest, j) < written,
        decreases len - k,
    {
        let l = io_slice_bytes(&bufs[k]).len();
        proof {
            assert(rest[k - start] == io_slice_view(bufs@[k as int]));
            lemma_prefix_len_step(rest, k - start);
        }
        if l <= n {
            n = n - l;
            k = k + 1;
            if k == len {
                assert(rest.len() == len - start);
                return WriteProgress::Done;
            }
            if n == 0 {
                proof {
                    let c = k - start;
                    assert(rest[c] == io_slice_view(bufs@[k as int]));
                    assert(rest[c].skip(0) =~= rest[c]);
                    lemma_remaining_view(old(bufs)@, bufs@, start as int, k as int, written as int);
                }
                return WriteProgress::Remaining(k);
            }
        } else {
            let mut s = bufs[k];
            io_slice_advance(&mut s, n);
            bufs[k] = s;
            proof {
                lemma_remaining_view(old(bufs)@, bufs@, start as int, k as int, written as int);
            }
            return WriteProgress::Remaining(k);
        }
    }
}

/// The slices from `k` on, after slice `k` lost the written part of its
/// front, hold the bytes of `old[start..]` past the first `written`.
proof fn lemma_remaining_view(old_bufs: Seq<IoSlice>, new_bufs: Seq<IoSlice>, start: int, k: int, written: int)
    requires
        0 <= start <= k < old_bufs.len(),
        new_bufs.len() == old_bufs.len(),
        ({
            let rest = io_slices_view(old_bufs).skip(start);
            let trimmed = written - prefix_len(rest, k - start);
            &&& 0 <= trimmed <= rest[k - start].len()
            &&& forall|i: int| 0 <= i < old_bufs.len() && i != k ==> new_bufs[i] == old_bufs[i]
            &&& io_slice_view(new_bufs[k]) == rest[k - start].skip(trimmed)
        }),
    ensures
        io_slices_view(new_bufs).skip(k).flatten() == io_slices_view(old_bufs).skip(start).flatten().skip(written),
{
    let rest = io_slices_view(old_bufs).skip(start);
    let c = k - start;
    let trimmed = written - prefix_len(rest, c);
    let tail = rest.skip(c);
    assert(io_slices_view(new_bufs).skip(k) =~= tail.update(0, tail[0].skip(trimmed)));
    lemma_flatten_trim_first(tail, trimmed);
    lemma_flatten_skip_prefix(rest, c);
    lemma_prefix_len_nonneg(rest, c);
    lemma_prefix_len_monotone(rest, c, rest.len() as int);
    lemma_flatten_len(rest);
    assert(rest.flatten().skip(prefix_len(rest, c)).skip(trimmed) =~= rest.flatten().skip(written));
}

} // verus!
