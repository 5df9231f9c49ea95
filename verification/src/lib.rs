//! Helpers for asynchronous I/O over byte buffers: reading into a `Vec<u8>`
//! or a `BytesMut` until a byte count within a range is reached, writing
//! lists of I/O slices or of `Bytes` with vectored writes, and a queue of
//! `Bytes` that groups writes.
//!
//! The library holds the decisions of these operations and proves them; the
//! loops that await a reader or a writer call into it after each read or
//! write.

use vstd::prelude::*;

mod async_read_utility;
mod async_write_utility;
mod chunks;
mod foreign;
mod init_maybeuninit_io_slice;
mod queue;
mod reusable_io_slices;
mod write_bytes;

pub use async_read_utility::{
    bounds_after_reads, bounds_computable, bytes_rng_outcome, end_bound_max, fill_lens,
    fills_within_bounds, lemma_reads_append_in_order, lemma_reads_stay_within_range,
    lemma_unbounded_end_is_capacity, read_step, range_max, read_exact_to_bytes, read_exact_to_vec,
    range_readable, read_outcome, read_to_bytes_rng, read_to_bytes_until_end, read_to_container_rng, read_to_vec,
    read_to_vec_rng, resolve_range, resolved_range, spare_capacity, spare_within,
    start_bound_min, total_filled, vec_rng_outcome, Bound, Container, RangeError,
    ReadExactToBytesFuture, ReadExactToVecFuture, ReadStep, ReadToBytesRngFuture,
    ReadToBytesUntilEndFuture, ReadToContainerRngFuture, ReadToVecFuture, ReadToVecRngFuture,
};
pub use async_write_utility::{advance_io_slices, io_slices_view, WriteProgress};
pub use chunks::{
    all_nonempty, drop_written, fits_io_slices, lemma_drop_written_flatten, prefix_len, total_len,
};
pub use foreign::{bytes_mut_view, bytes_view, io_slice_view};
pub use init_maybeuninit_io_slice::init_maybeuninit_io_slices_mut;
pub use queue::{
    bytes_seq_view, lemma_extend_is_pushes_in_order, lemma_nonempty_chunks_keeps_every_nonempty_chunk, nonempty_chunks, pushed, Buffers, DrainBytes,
    MpScBytesQueue, QueuePusher,
};
pub use reusable_io_slices::ReusableIoSlices;
pub use write_bytes::{advance_written_bytes, retain_unwritten_bytes, write_bytes_io_slices};

verus! {

/// Hands `val` back; it only compiles where `T` is `Send`.
pub fn assert_send<T>(val: T) -> (r: T) where T: Send
    ensures
        r == val,
{
    val
}

} // verus!
