//! Reading into a `Vec<u8>` or a `BytesMut`.
//!
//! Each function here sets up the state of a read (how many bytes at least
//! and at most, into which container); the reads themselves are driven
//! outside the library through [`ReadToContainerRngFuture::read_len`] and
//! [`ReadToContainerRngFuture::complete_read`].

use vstd::prelude::*;
use bytes::BytesMut;

use crate::foreign::{bytes_mut_reserve, bytes_mut_view};

mod bytes_impl;
mod inner;

pub use bytes_impl::{read_to_bytes_until_end, ReadToBytesUntilEndFuture};
pub use inner::{
    bounds_after_reads, bounds_computable, end_bound_max, fill_lens, fills_within_bounds,
    lemma_reads_append_in_order, lemma_reads_stay_within_range, lemma_unbounded_end_is_capacity, range_max, range_readable,
    read_outcome, read_step, read_to_container_rng,
    resolve_range, resolved_range, spare_within, start_bound_min, total_filled, Bound, Container,
    RangeError, ReadStep, ReadToContainerRngFuture,
};

verus! {

/// Returned future of [`read_to_vec`].
#[derive(Debug)]
pub struct ReadToVecFuture<'a, T: ?Sized>(pub ReadExactToVecFuture<'a, T>);

/// Returned future of [`read_exact_to_vec`].
#[derive(Debug)]
pub struct ReadExactToVecFuture<'a, T: ?Sized>(pub ReadToVecRngFuture<'a, T>);

/// Returned future of [`read_to_vec_rng`].
#[derive(Debug)]
pub struct ReadToVecRngFuture<'a, Reader: ?Sized>(pub ReadToContainerRngFuture<'a, Vec<u8>, Reader>);

/// Returned future of [`read_exact_to_bytes`].
#[derive(Debug)]
pub struct ReadExactToBytesFuture<'a, T: ?Sized>(pub ReadToBytesRngFuture<'a, T>);

/// Returned future of [`read_to_bytes_rng`].
#[derive(Debug)]
pub struct ReadToBytesRngFuture<'a, Reader: ?Sized>(pub ReadToContainerRngFuture<'a, BytesMut, Reader>);

/// Try to fill data from `reader` into the spare capacity of `vec`.
///
/// It can be used to implement buffering: exactly the spare capacity of
/// `vec` is to be read in.
///
/// NOTE that this function does not modify any existing data.
pub fn read_to_vec<'a, T: ?Sized>(reader: &'a mut T, vec: &'a mut Vec<u8>) -> (r: ReadToVecFuture<'a, T>)
    ensures
        r.0.0.0.min == r.0.0.0.max,
        old(vec)@.len() + r.0.0.0.max <= isize::MAX,
        exists|capacity: usize|
            #[trigger] call_ensures(<Vec<u8> as Container>::capacity, (&*old(vec),), capacity)
                && old(vec)@.len() + r.0.0.0.max == capacity,
        r.0.0.0.container@ == old(vec)@,
        final(r.0.0.0.container)@ == final(vec)@,
{
    let spare = spare_capacity(Container::capacity(&*vec), vec.len());
    ReadToVecFuture(read_exact_to_vec(reader, vec, spare))
}

/// The spare capacity of a vector of `len` elements whose capacity is
/// `capacity`: what [`read_to_vec`] reads in.
pub fn spare_capacity(capacity: usize, len: usize) -> (r: usize)
    requires
        len <= capacity,
    ensures
        r == capacity - len,
{
    capacity - len
}

/// * `nread` - bytes to read in
///
/// NOTE that this function does not modify any existing data.
pub fn read_exact_to_vec<'a, T: ?Sized>(reader: &'a mut T, vec: &'a mut Vec<u8>, nread: usize) -> (r:
    ReadExactToVecFuture<'a, T>)
    requires
        old(vec)@.len() + nread <= isize::MAX,
    ensures
        r.0.0.min == nread,
        r.0.0.max == nread,
        r.0.0.container@ == old(vec)@,
        final(r.0.0.container)@ == final(vec)@,
{
    match read_to_vec_rng(reader, vec, Bound::Included(nread), Bound::Included(nread)) {
        Ok(f) => ReadExactToVecFuture(f),
        Err(_) => vstd::pervasive::unreached(),
    }
}

/// The bounds a vector read state holds, or the error.
pub open spec fn vec_rng_outcome<'a, T: ?Sized>(r: Result<ReadToVecRngFuture<'a, T>, RangeError>) -> Result<
    (usize, usize),
    RangeError,
> {
    match r {
        Ok(f) => Ok((f.0.min, f.0.max)),
        Err(e) => Err(e),
    }
}

/// * `start`, `end` - The start of the range gives the minimum of bytes to
///   read in, the end gives the maximum. An unbounded start means 0; an
///   unbounded end means the capacity of `vec`.
///
/// The bounds are those of [`read_to_container_rng`]; so are the errors.
///
/// NOTE that this function does not modify any existing data.
pub fn read_to_vec_rng<'a, T: ?Sized>(
    reader: &'a mut T,
    vec: &'a mut Vec<u8>,
    start: Bound,
    end: Bound,
) -> (r: Result<ReadToVecRngFuture<'a, T>, RangeError>)
    requires
        range_readable(start, end, old(vec)@.len() as int),
    ensures
        !(end is Unbounded) ==> vec_rng_outcome(r) == Ok::<(usize, usize), RangeError>(
            (start_bound_min(start) as usize, end_bound_max(end) as usize),
        ),
        exists|capacity: usize|
            capacity >= old(vec)@.len() && vec_rng_outcome(r) == #[trigger] resolved_range(
                start,
                end,
                capacity,
                old(vec)@.len() as usize,
            ),
        end is Unbounded ==> exists|capacity: usize|
            #[trigger] call_ensures(<Vec<u8> as Container>::capacity, (&*old(vec),), capacity)
                && vec_rng_outcome(r) == resolved_range(start, end, capacity, old(vec)@.len() as usize),
        r is Err ==> final(vec)@ == old(vec)@,
        r matches Ok(f) ==> {
            &&& f.0.wf()
            &&& f.0.container@ == old(vec)@
            &&& final(f.0.container)@ == final(vec)@
        },
{
    match read_to_container_rng(reader, vec, start, end) {
        Ok(f) => Ok(ReadToVecRngFuture(f)),
        Err(e) => Err(e),
    }
}

/// * `nread` - bytes to read in
///
/// Reserves room for `nread` bytes first.
///
/// NOTE that this function does not modify any existing data.
pub fn read_exact_to_bytes<'a, T: ?Sized>(reader: &'a mut T, bytes: &'a mut BytesMut, nread: usize) -> (r:
    ReadExactToBytesFuture<'a, T>)
    requires
        bytes_mut_view(*old(bytes)).len() + nread <= isize::MAX,
    ensures
        r.0.0.min == nread,
        r.0.0.max == nread,
        bytes_mut_view(*r.0.0.container) == bytes_mut_view(*old(bytes)),
        bytes_mut_view(*final(r.0.0.container)) == bytes_mut_view(*final(bytes)),
{
    bytes_mut_reserve(bytes, nread);
    match read_to_bytes_rng(reader, bytes, Bound::Included(nread), Bound::Included(nread)) {
        Ok(f) => ReadExactToBytesFuture(f),
        Err(_) => vstd::pervasive::unreached(),
    }
}

/// The bounds a `BytesMut` read state holds, or the error.
pub open spec fn bytes_rng_outcome<'a, T: ?Sized>(r: Result<ReadToBytesRngFuture<'a, T>, RangeError>) -> Result<
    (usize, usize),
    RangeError,
> {
    match r {
        Ok(f) => Ok((f.0.min, f.0.max)),
        Err(e) => Err(e),
    }
}

/// * `start`, `end` - The start of the range gives the minimum of bytes to
///   read in, the end gives the maximum. An unbounded start means 0; an
///   unbounded end means the capacity of `bytes`.
///
/// The bounds are those of [`read_to_container_rng`]; so are the errors.
///
/// NOTE that this function does not modify any existing data.
pub fn read_to_bytes_rng<'a, T: ?Sized>(
    reader: &'a mut T,
    bytes: &'a mut BytesMut,
    start: Bound,
    end: Bound,
) -> (r: Result<ReadToBytesRngFuture<'a, T>, RangeError>)
    requires
        range_readable(start, end, bytes_mut_view(*old(bytes)).len() as int),
    ensures
        !(end is Unbounded) ==> bytes_rng_outcome(r) == Ok::<(usize, usize), RangeError>(
            (start_bound_min(start) as usize, end_bound_max(end) as usize),
        ),
        exists|capacity: usize|
            capacity >= bytes_mut_view(*old(bytes)).len() && bytes_rng_outcome(r)
                == #[trigger] resolved_range(
                start,
                end,
                capacity,
                bytes_mut_view(*old(bytes)).len() as usize,
            ),
        end is Unbounded ==> exists|capacity: usize|
            #[trigger] call_ensures(<BytesMut as Container>::capacity, (&*old(bytes),), capacity)
                && bytes_rng_outcome(r) == resolved_range(
                start,
                end,
                capacity,
                bytes_mut_view(*old(bytes)).len() as usize,
            ),
        r is Err ==> bytes_mut_view(*final(bytes)) == bytes_mut_view(*old(bytes)),
        r matches Ok(f) ==> {
            &&& f.0.wf()
            &&& bytes_mut_view(*f.0.container) == bytes_mut_view(*old(bytes))
            &&& bytes_mut_view(*final(f.0.container)) == bytes_mut_view(*final(bytes))
        },
{
    match read_to_container_rng(reader, bytes, start, end) {
        Ok(f) => Ok(ReadToBytesRngFuture(f)),
        Err(e) => Err(e),
    }
}

} // verus!
