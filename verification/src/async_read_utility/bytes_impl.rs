//! Reading into a `BytesMut` until the end of the input.

use vstd::prelude::*;
use bytes::BytesMut;

use crate::foreign::{bytes_mut_reserve, bytes_mut_spare_len, bytes_mut_view};

verus! {

/// The state of a read of everything left in `reader` into `bytes`.
///
/// `cnt` counts the bytes read in so far; it is what the future completes
/// with once a read fills nothing.
#[derive(Debug)]
pub struct ReadToBytesUntilEndFuture<'a, Reader: ?Sized> {
    pub reader: &'a mut Reader,
    pub bytes: &'a mut BytesMut,
    pub cnt: usize,
}

impl<'a, Reader: ?Sized> ReadToBytesUntilEndFuture<'a, Reader> {
    /// Makes room for the next read and returns how many bytes it may fill
    /// (never 0).
    ///
    /// It reserves 32 bytes each time: a reader with little to give then
    /// costs little, while one with a lot keeps growing the buffer.
    pub fn read_len(&mut self) -> (r: usize)
        requires
            bytes_mut_view(*old(self).bytes).len() + 64 <= isize::MAX,
        ensures
            r > 0,
            bytes_mut_view(*final(self).bytes).len() + r <= isize::MAX,
            final(self).cnt == old(self).cnt,
            bytes_mut_view(*final(self).bytes) == bytes_mut_view(*old(self).bytes),
            bytes_mut_view(*final(final(self).bytes)) == bytes_mut_view(*final(old(self).bytes)),
    {
        bytes_mut_reserve(self.bytes, 32);
        bytes_mut_spare_len(self.bytes)
    }

    /// Takes in the bytes that the last read filled.
    ///
    /// Returns the count of bytes read in once a read fills nothing (the end
    /// of the input), and `None` while reads go on.
    pub fn complete_read(&mut self, filled: &[u8]) -> (r: Option<usize>)
        requires
            old(self).cnt <= bytes_mut_view(*old(self).bytes).len(),
            bytes_mut_view(*old(self).bytes).len() + filled@.len() <= isize::MAX,
        ensures
            final(self).cnt <= bytes_mut_view(*final(self).bytes).len(),
            bytes_mut_view(*final(final(self).bytes)) == bytes_mut_view(*final(old(self).bytes)),
            bytes_mut_view(*final(self).bytes) == bytes_mut_view(*old(self).bytes) + filled@,
            final(self).cnt == old(self).cnt + filled@.len(),
            filled@.len() == 0 <==> r == Some(old(self).cnt),
            filled@.len() > 0 <==> r is None,
    {
        let n = filled.len();
        if n == 0 {
            assert(filled@ =~= Seq::<u8>::empty());
            assert(bytes_mut_view(*self.bytes) =~= bytes_mut_view(*self.bytes) + filled@);
            return Some(self.cnt);
        }
        self.bytes.extend_from_slice(filled);
        self.cnt = self.cnt + n;
        None
    }
}

/// NOTE that this function does not modify any existing data.
pub fn read_to_bytes_until_end<'a, R: ?Sized>(reader: &'a mut R, bytes: &'a mut BytesMut) -> (r:
    ReadToBytesUntilEndFuture<'a, R>)
    ensures
        r.cnt == 0,
        bytes_mut_view(*r.bytes) == bytes_mut_view(*old(bytes)),
        bytes_mut_view(*final(r.bytes)) == bytes_mut_view(*final(bytes)),
{
    ReadToBytesUntilEndFuture { reader, bytes, cnt: 0 }
}

} // verus!
