//! Contracts for the outside types and functions that the library calls.

use vstd::prelude::*;
use bytes::{Buf, BufMut, Bytes, BytesMut};
use std::collections::VecDeque;
use std::io::IoSlice;

verus! {

#[verifier::external_type_specification]
#[verifier::external_body]
pub struct ExBytes(Bytes);

#[verifier::external_type_specification]
#[verifier::external_body]
pub struct ExIoSlice<'a>(IoSlice<'a>);

/// The bytes that a `Bytes` handle refers to.
pub uninterp spec fn bytes_view(b: Bytes) -> Seq<u8>;

/// The bytes that an `IoSlice` refers to.
pub uninterp spec fn io_slice_view(s: IoSlice) -> Seq<u8>;

/// `Bytes::len`: the number of bytes the handle refers to.
#[verifier::external_body]
pub fn bytes_len(b: &Bytes) -> (r: usize)
    ensures
        r == bytes_view(*b).len(),
{
    b.len()
}

/// `Bytes::clone`: a new handle to the same bytes.
pub assume_specification[ <Bytes as Clone>::clone ](b: &Bytes) -> (r: Bytes)
    ensures
        bytes_view(r) == bytes_view(*b),
;

/// `Buf::advance` on `Bytes`: drops the first `cnt` bytes; panics past the end.
#[verifier::external_body]
pub fn bytes_advance(b: &mut Bytes, cnt: usize)
    requires
        cnt <= bytes_view(*old(b)).len(),
    ensures
        bytes_view(*final(b)) == bytes_view(*old(b)).skip(cnt as int),
{
    b.advance(cnt)
}

/// `Bytes::slice` with a range `n..`: a handle to the bytes past the first
/// `n`; panics past the end.
#[verifier::external_body]
pub fn bytes_slice_from(b: &Bytes, n: usize) -> (r: Bytes)
    requires
        n <= bytes_view(*b).len(),
    ensures
        bytes_view(r) == bytes_view(*b).skip(n as int),
{
    b.slice(n..)
}

/// `<Bytes as Deref>::deref`: the referred bytes as a slice.
#[verifier::external_body]
pub fn bytes_as_slice(b: &Bytes) -> (r: &[u8])
    ensures
        r@ == bytes_view(*b),
{
    b
}

/// `IoSlice::new`: an I/O slice over `buf`. On Windows it panics for a
/// slice longer than `u32::MAX` bytes, which the bound here keeps out.
pub assume_specification<'a>[ IoSlice::<'a>::new ](buf: &'a [u8]) -> (r: IoSlice<'a>)
    requires
        buf@.len() <= u32::MAX,
    ensures
        io_slice_view(r) == buf@,
;

/// `<IoSlice as Deref>::deref`: the referred bytes as a slice.
#[verifier::external_body]
pub fn io_slice_bytes<'s>(s: &'s IoSlice) -> (r: &'s [u8])
    ensures
        r@ == io_slice_view(*s),
{
    s
}

/// `IoSlice::advance`: drops the first `n` bytes; panics past the end.
#[verifier::external_body]
pub fn io_slice_advance(s: &mut IoSlice, n: usize)
    requires
        n <= io_slice_view(*old(s)).len(),
    ensures
        io_slice_view(*final(s)) == io_slice_view(*old(s)).skip(n as int),
{
    s.advance(n)
}

#[verifier::external_type_specification]
#[verifier::external_body]
pub struct ExBytesMut(BytesMut);

/// The bytes that a `BytesMut` holds.
pub uninterp spec fn bytes_mut_view(b: BytesMut) -> Seq<u8>;

/// `BytesMut::len`: the number of bytes held.
#[verifier::external_body]
pub fn bytes_mut_len(b: &BytesMut) -> (r: usize)
    ensures
        r == bytes_mut_view(*b).len(),
{
    b.len()
}

/// `BytesMut::capacity`: never less than the number of bytes held.
#[verifier::external_body]
pub fn bytes_mut_capacity(b: &BytesMut) -> (r: usize)
    ensures
        r >= bytes_mut_view(*b).len(),
{
    b.capacity()
}

/// `BytesMut::reserve`: makes room for `additional` more bytes and keeps the
/// bytes held. It panics when the new capacity overflows, which the bound
/// here keeps out as far as the held bytes show it; the buffer's hidden
/// offset inside a shared allocation is not stated.
#[verifier::external_body]
pub fn bytes_mut_reserve(b: &mut BytesMut, additional: usize)
    requires
        bytes_mut_view(*old(b)).len() + additional <= isize::MAX,
    ensures
        bytes_mut_view(*final(b)) == bytes_mut_view(*old(b)),
{
    b.reserve(additional)
}

/// `BytesMut::extend_from_slice`: appends `extend`.
pub assume_specification[ BytesMut::extend_from_slice ](b: &mut BytesMut, extend: &[u8])
    requires
        bytes_mut_view(*old(b)).len() + extend@.len() <= isize::MAX,
    ensures
        bytes_mut_view(*final(b)) == bytes_mut_view(*old(b)) + extend@,
;

/// `BufMut::chunk_mut` on `BytesMut`, taken by its length: the spare room
/// the next write may fill. When none is left it reserves 64 more bytes
/// first, so the room is never empty; the bytes held stay the same. The
/// room is the rest of the buffer's capacity past the bytes held, all in
/// one allocation, so together they stay within `isize::MAX` bytes.
#[verifier::external_body]
pub fn bytes_mut_spare_len(b: &mut BytesMut) -> (r: usize)
    requires
        bytes_mut_view(*old(b)).len() + 64 <= isize::MAX,
    ensures
        r > 0,
        bytes_mut_view(*final(b)).len() + r <= isize::MAX,
        bytes_mut_view(*final(b)) == bytes_mut_view(*old(b)),
{
    b.chunk_mut().len()
}

/// `Vec::capacity`: never less than the length, and for bytes never more
/// than `isize::MAX`, the most that a vector may allocate.
#[verifier::external_body]
pub fn vec_capacity(v: &Vec<u8>) -> (r: usize)
    ensures
        v@.len() <= r <= isize::MAX,
{
    v.capacity()
}

/// `VecDeque::capacity`: never less than the length.
#[verifier::external_body]
pub fn deque_capacity(d: &VecDeque<Bytes>) -> (r: usize)
    ensures
        r >= d@.len(),
{
    d.capacity()
}

/// `VecDeque::reserve_exact`: makes room for `additional` more elements and
/// keeps the elements.
#[verifier::external_body]
pub fn deque_reserve_exact(d: &mut VecDeque<Bytes>, additional: usize)
    ensures
        final(d)@ == old(d)@,
{
    d.reserve_exact(additional)
}

} // verus!
