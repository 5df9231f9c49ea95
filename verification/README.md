# tokio_io_utility

Helpers for asynchronous I/O over byte buffers, verified with Verus:

- reading into a `Vec<u8>` or a `BytesMut` until a byte count within a
  range is reached (`src/async_read_utility.rs`, `src/async_read_utility/`);
- writing a list of `IoSlice`s or of `Bytes` with vectored writes
  (`src/async_write_utility.rs`, `src/write_bytes.rs`);
- a queue of `Bytes` that groups the queued buffers into vectored writes
  (`src/queue.rs`), and I/O slice slots (`src/reusable_io_slices.rs`,
  `src/init_maybeuninit_io_slice.rs`). The slots hold slices of static
  data; they bound how many slices one write gathers, since holding slices
  of shorter-lived buffers in the same allocation needs `unsafe`.

`src/` holds every decision these operations take, with contracts: after a
write of `n` bytes the remaining buffers hold exactly the bytes past the first
`n` (`src/chunks.rs`); reads only append and stop once the minimum is read;
the queue keeps its buffers in push order and never holds an empty one.
`src/foreign.rs` states what the library assumes of `bytes`, `std::io::IoSlice`
and the std collections it calls.

`app/` holds what awaits: the futures that poll a `tokio` reader, the
functions that await a writer, the lock-protected queue shared between
threads, and the `unsafe` lifetime views of I/O slices.
