//! Reading into a container until a byte count within a range is reached.
//!
//! The future that performs the reads is driven outside the library (it
//! polls an asynchronous reader). Each time a read returns, the driver hands
//! the bytes it filled to [`ReadToContainerRngFuture::complete_read`], which
//! appends them to the container, updates the bounds still owed and says
//! whether to read again.

use vstd::prelude::*;
use bytes::BytesMut;

use crate::foreign::{
    bytes_mut_capacity, bytes_mut_len, bytes_mut_reserve, bytes_mut_spare_len, bytes_mut_view,
    vec_capacity,
};

verus! {

/// A container that reads can fill.
///
/// Implementations must keep the bytes they already hold: reads only ever
/// append.
pub trait Container {
    /// The bytes the container holds.
    spec fn contents(&self) -> Seq<u8>;

    /// Reserve room for at least `n` more bytes.
    fn reserve(&mut self, n: usize)
        requires
            old(self).contents().len() + n <= isize::MAX,
        ensures
            final(self).contents() == old(self).contents(),
    ;

    /// The number of bytes held.
    fn len(&self) -> (r: usize)
        ensures
            r == self.contents().len(),
    ;

    /// Return the capacity reserved.
    fn capacity(&self) -> (r: usize)
        ensures
            r >= self.contents().len(),
    ;

    /// Whether the container can hand out room for a read without growing
    /// past what an allocation may hold.
    spec fn can_take_read(&self) -> bool;

    /// The number of bytes the next read may fill: never 0 and at most `max`.
    ///
    /// It may be less than what [`Container::capacity`] or
    /// [`Container::reserve`] suggest, since a container may hand out its
    /// room in pieces.
    fn spare_len(&mut self, max: usize) -> (r: usize)
        requires
            max > 0,
            old(self).can_take_read(),
        ensures
            0 < r <= max,
            final(self).contents() == old(self).contents(),
    ;

    /// Take in the bytes that a read filled.
    fn advance(&mut self, filled: &[u8])
        requires
            old(self).contents().len() + filled@.len() <= isize::MAX,
        ensures
            final(self).contents() == old(self).contents() + filled@,
    ;
}

impl<T: Container> Container for &mut T {
    open spec fn contents(&self) -> Seq<u8> {
        (**self).contents()
    }

    open spec fn can_take_read(&self) -> bool {
        (**self).can_take_read()
    }

    fn reserve(&mut self, n: usize) {
        (**self).reserve(n)
    }

    fn len(&self) -> (r: usize) {
        (**self).len()
    }

    /// The capacity of the borrowed container.
    fn capacity(&self) -> (r: usize)
        ensures
            call_ensures(T::capacity, (&*old(*self),), r),
    {
        (**self).capacity()
    }

    fn spare_len(&mut self, max: usize) -> (r: usize) {
        (**self).spare_len(max)
    }

    fn advance(&mut self, filled: &[u8]) {
        (**self).advance(filled)
    }
}

impl Container for Vec<u8> {
    open spec fn contents(&self) -> Seq<u8> {
        self@
    }

    /// A vector reads into room reserved beforehand.
    open spec fn can_take_read(&self) -> bool {
        true
    }

    fn reserve(&mut self, n: usize) {
        Vec::reserve(self, n)
    }

    fn len(&self) -> (r: usize) {
        Vec::len(self)
    }

    /// The capacity that `Vec::capacity` reports.
    fn capacity(&self) -> (r: usize)
        ensures
            call_ensures(vec_capacity, (self,), r),
    {
        vec_capacity(self)
    }

    /// A vector hands out all the room asked for, since
    /// [`read_to_container_rng`] reserves it first.
    fn spare_len(&mut self, max: usize) -> (r: usize)
        ensures
            r == max,
    {
        max
    }

    fn advance(&mut self, filled: &[u8]) {
        let ghost before = self@;
        self.extend_from_slice(filled);
        assert(self@ =~= before + filled@);
    }
}

impl Container for BytesMut {
    open spec fn contents(&self) -> Seq<u8> {
        bytes_mut_view(*self)
    }

    /// A full `BytesMut` grows by 64 bytes before it hands out room.
    open spec fn can_take_read(&self) -> bool {
        self.contents().len() + 64 <= isize::MAX
    }

    fn reserve(&mut self, n: usize) {
        bytes_mut_reserve(self, n)
    }

    fn len(&self) -> (r: usize) {
        bytes_mut_len(self)
    }

    /// The capacity that `BytesMut::capacity` reports.
    fn capacity(&self) -> (r: usize)
        ensures
            call_ensures(bytes_mut_capacity, (self,), r),
    {
        bytes_mut_capacity(self)
    }

    fn spare_len(&mut self, max: usize) -> (r: usize) {
        let spare = bytes_mut_spare_len(self);
        spare_within(spare, max)
    }

    fn advance(&mut self, filled: &[u8]) {
        self.extend_from_slice(filled)
    }
}

/// The part of a spare room of `spare` bytes that a read owed at most `max`
/// bytes may fill: the smaller of the two.
pub fn spare_within(spare: usize, max: usize) -> (r: usize)
    ensures
        r == if spare < max {
            spare
        } else {
            max
        },
{
    if spare < max {
        spare
    } else {
        max
    }
}

/// A bound of a range of byte counts.
#[derive(PartialEq, Eq, Structural, Clone, Copy, Debug)]
pub enum Bound {
    /// The count given is in the range.
    Included(usize),
    /// The count given is just outside the range.
    Excluded(usize),
    /// No bound on this side.
    Unbounded,
}

/// The least count that a start bound admits.
pub open spec fn start_bound_min(start: Bound) -> int {
    match start {
        Bound::Included(v) => v as int,
        Bound::Excluded(v) => v + 1,
        Bound::Unbounded => 0,
    }
}

/// The greatest count that an end bound admits, when it is not unbounded.
pub open spec fn end_bound_max(end: Bound) -> int {
    match end {
        Bound::Included(v) => v as int,
        Bound::Excluded(v) => v - 1,
        Bound::Unbounded => 0,
    }
}

/// The bounds can be computed without overflow: an excluded start is below
/// `usize::MAX` and an excluded end is above 0.
pub open spec fn bounds_computable(start: Bound, end: Bound) -> bool {
    &&& start matches Bound::Excluded(v) ==> v < usize::MAX
    &&& end matches Bound::Excluded(v) ==> v > 0
}

/// The bounds still owed, `(min, max)`, after reads that filled `fills`
/// bytes one after the other, as [`ReadToContainerRngFuture::complete_read`]
/// lowers them.
pub open spec fn bounds_after_reads(min: int, max: int, fills: Seq<int>) -> (int, int)
    decreases fills.len(),
{
    if fills.len() == 0 {
        (min, max)
    } else {
        let (m, x) = bounds_after_reads(min, max, fills.drop_last());
        let f = fills.last();
        (if m <= f {
            0
        } else {
            m - f
        }, x - f)
    }
}

/// The total of `fills`.
pub open spec fn total_filled(fills: Seq<int>) -> int
    decreases fills.len(),
{
    if fills.len() == 0 {
        0
    } else {
        total_filled(fills.drop_last()) + fills.last()
    }
}

/// Each read filled at least one byte and at most the maximum still owed.
pub open spec fn fills_within_bounds(min: int, max: int, fills: Seq<int>) -> bool {
    forall|i: int|
        0 <= i < fills.len() ==> 0 < #[trigger] fills[i] <= bounds_after_reads(
            min,
            max,
            fills.take(i),
        ).1
}

/// Reads of a range never go past its maximum, and they are done exactly
/// when the minimum has been read: after reads that each filled at most the
/// maximum still owed, the total read is at most `max`, the maximum still
/// owed is `max` less that total, and the minimum still owed is 0 exactly
/// when the total reached `min`.
pub proof fn lemma_reads_stay_within_range(min: int, max: int, fills: Seq<int>)
    requires
        0 <= min <= max,
        fills_within_bounds(min, max, fills),
    ensures
        0 <= total_filled(fills) <= max,
        bounds_after_reads(min, max, fills).1 == max - total_filled(fills),
        bounds_after_reads(min, max, fills).0 == if total_filled(fills) >= min {
            0
        } else {
            min - total_filled(fills)
        },
        bounds_after_reads(min, max, fills).0 <= bounds_after_reads(min, max, fills).1,
    decreases fills.len(),
{
    if fills.len() > 0 {
        let init = fills.drop_last();
        assert forall|i: int| 0 <= i < init.len() implies 0 < #[trigger] init[i] <= bounds_after_reads(
            min,
            max,
            init.take(i),
        ).1 by {
            assert(init.take(i) =~= fills.take(i));
            assert(init[i] == fills[i]);
        }
        lemma_reads_stay_within_range(min, max, init);
        let k = init.len() as int;
        assert(fills.take(k) =~= init);
        assert(0 < fills[k] <= bounds_after_reads(min, max, fills.take(k)).1);
    }
}

/// One read that filled `filled`, at least one byte, takes a read state,
/// given as the bytes held and the bounds still owed `(min, max)`, to the
/// next one: the bytes are appended and both bounds go down by their count.
pub open spec fn read_step(
    before: (Seq<u8>, int, int),
    filled: Seq<u8>,
    after: (Seq<u8>, int, int),
) -> bool {
    &&& filled.len() > 0
    &&& after.0 == before.0 + filled
    &&& (after.1, after.2) == bounds_after_reads(before.1, before.2, seq![filled.len() as int])
}

/// The number of bytes that each read filled.
pub open spec fn fill_lens(reads: Seq<Seq<u8>>) -> Seq<int> {
    reads.map_values(|f: Seq<u8>| f.len() as int)
}

/// Reads taken in one after another, each as
/// [`ReadToContainerRngFuture::complete_read`] takes it in, leave the bytes
/// held before followed by exactly the bytes read, in the order they were
/// read, none lost or repeated; and they owe the bounds that all their fills
/// together leave.
pub proof fn lemma_reads_append_in_order(states: Seq<(Seq<u8>, int, int)>, reads: Seq<Seq<u8>>)
    requires
        states.len() == reads.len() + 1,
        forall|i: int|
            0 <= i < reads.len() ==> #[trigger] read_step(states[i], reads[i], states[i + 1]),
    ensures
        states.last().0 == states[0].0 + reads.flatten(),
        (states.last().1, states.last().2) == bounds_after_reads(
            states[0].1,
            states[0].2,
            fill_lens(reads),
        ),
    decreases reads.len(),
{
    if reads.len() == 0 {
        assert(reads.flatten() =~= Seq::<u8>::empty());
        assert(states[0].0 + reads.flatten() =~= states[0].0);
        assert(fill_lens(reads) =~= Seq::<int>::empty());
    } else {
        let k = reads.len() - 1;
        let init = reads.drop_last();
        let prefix = states.drop_last();
        assert forall|i: int| 0 <= i < init.len() implies #[trigger] read_step(
            prefix[i],
            init[i],
            prefix[i + 1],
        ) by {
            assert(read_step(states[i], reads[i], states[i + 1]));
        }
        lemma_reads_append_in_order(prefix, init);
        assert(read_step(states[k], reads[k], states[k + 1]));
        assert(prefix.last() == states[k]);
        assert(reads =~= init.push(reads[k]));
        init.lemma_flatten_push(reads[k]);
        assert(states[0].0 + reads.flatten() =~= (states[0].0 + init.flatten()) + reads[k]);
        let one = seq![reads[k].len() as int];
        assert(one.drop_last() =~= Seq::<int>::empty());
        assert(fill_lens(reads).drop_last() =~= fill_lens(init));
        assert(fill_lens(reads).last() == reads[k].len());
        assert(bounds_after_reads(states[k].1, states[k].2, one.drop_last()) == (
        states[k].1, states[k].2));
        assert(bounds_after_reads(states[0].1, states[0].2, fill_lens(reads).drop_last()) == (
        states[k].1, states[k].2));
    }
}

/// What the driver does after a read has returned.
#[derive(PartialEq, Eq, Structural, Clone, Copy, Debug)]
pub enum ReadStep {
    /// At least the minimum has been read: the future completes with `Ok`.
    Done,
    /// The minimum is not reached yet: read again.
    ReadMore,
    /// The read filled nothing: the future completes with
    /// `std::io::ErrorKind::UnexpectedEof`.
    UnexpectedEof,
}

/// The state of a read of between `min` and `max` more bytes into
/// `container`.
///
/// `min` and `max` count what is still owed: each read lowers both by the
/// bytes it filled (`min` never below 0), and the reads stop once `min` is 0.
#[derive(Debug)]
pub struct ReadToContainerRngFuture<'a, C: ?Sized, Reader: ?Sized> {
    pub reader: &'a mut Reader,
    pub container: &'a mut C,
    pub min: usize,
    pub max: usize,
}

impl<'a, C: Container + ?Sized, Reader: ?Sized> ReadToContainerRngFuture<'a, C, Reader> {
    /// The bounds still owed are a range (`min <= max`), and the container
    /// can take the maximum in without outgrowing `isize::MAX` bytes.
    pub open spec fn wf(&self) -> bool {
        &&& self.min <= self.max
        &&& self.container.contents().len() + self.max <= isize::MAX
    }

    /// How many bytes the next read may fill, or `None` when nothing more
    /// may be read, in which case the future completes with `Ok` at once.
    pub fn read_len(&mut self) -> (r: Option<usize>)
        requires
            old(self).wf(),
            old(self).container.can_take_read(),
        ensures
            final(self).wf(),
            final(self).min == old(self).min,
            final(self).max == old(self).max,
            final(self).container.contents() == old(self).container.contents(),
            final(final(self).container).contents() == final(old(self).container).contents(),
            old(self).max == 0 <==> r is None,
            r matches Some(len) ==> 0 < len <= old(self).max,
    {
        if self.max == 0 {
            None
        } else {
            Some(self.container.spare_len(self.max))
        }
    }

    /// Takes in the bytes that the last read filled, at most what
    /// [`ReadToContainerRngFuture::read_len`] allowed.
    ///
    /// A read that filled nothing is the end of the input before the
    /// minimum was reached. Otherwise the bytes are appended to the
    /// container and both bounds go down by their count; the reads are done
    /// once the minimum is reached.
    pub fn complete_read(&mut self, filled: &[u8]) -> (step: ReadStep)
        requires
            old(self).wf(),
            0 < old(self).max,
            filled@.len() <= old(self).max,
        ensures
            final(final(self).container).contents() == final(old(self).container).contents(),
            final(self).wf(),
            filled@.len() == 0 ==> {
                &&& step == ReadStep::UnexpectedEof
                &&& final(self).min == old(self).min
                &&& final(self).max == old(self).max
                &&& final(self).container.contents() == old(self).container.contents()
            },
            filled@.len() > 0 ==> {
                &&& read_step(
                    (old(self).container.contents(), old(self).min as int, old(self).max as int),
                    filled@,
                    (final(self).container.contents(), final(self).min as int, final(self).max as int),
                )
                &&& final(self).container.contents() == old(self).container.contents() + filled@
                &&& (final(self).min as int, final(self).max as int) == bounds_after_reads(
                    old(self).min as int,
                    old(self).max as int,
                    seq![filled@.len() as int],
                )
                &&& final(self).max == old(self).max - filled@.len()
                &&& final(self).min == (if old(self).min <= filled@.len() {
                    0
                } else {
                    old(self).min - filled@.len()
                })
                &&& step == (if final(self).min == 0 {
                    ReadStep::Done
                } else {
                    ReadStep::ReadMore
                })
            },
    {
        let n = filled.len();
        if n == 0 {
            return ReadStep::UnexpectedEof;
        }
        proof {
            let one = seq![n as int];
            assert(one.drop_last() =~= Seq::<int>::empty());
            assert(bounds_after_reads(self.min as int, self.max as int, one.drop_last()) == (
            self.min as int, self.max as int));
        }
        self.container.advance(filled);
        self.min = self.min.saturating_sub(n);
        self.max = self.max - n;
        if self.min == 0 {
            ReadStep::Done
        } else {
            ReadStep::ReadMore
        }
    }
}

/// Why a range of byte counts cannot be read.
#[derive(PartialEq, Eq, Structural, Clone, Copy, Debug)]
pub enum RangeError {
    /// The minimum exceeds the maximum: not a valid range.
    MinAboveMax { min: usize, max: usize },
    /// Room for the maximum past the `len` bytes held would exceed
    /// `isize::MAX` bytes, which no allocation can hold.
    CapacityOverflow { len: usize, max: usize },
}

/// The greatest count that an end bound admits, `capacity` for an
/// unbounded end.
pub open spec fn range_max(end: Bound, capacity: int) -> int {
    match end {
        Bound::Unbounded => capacity,
        _ => end_bound_max(end),
    }
}

/// An unbounded end reads up to the capacity and no further: such a range
/// resolves exactly when its minimum is at most the capacity and the
/// capacity fits again past the `len` bytes held, and its maximum is then
/// the capacity itself; a minimum above the capacity is refused with both.
pub proof fn lemma_unbounded_end_is_capacity(start: Bound, capacity: usize, len: usize)
    requires
        bounds_computable(start, Bound::Unbounded),
    ensures
        resolved_range(start, Bound::Unbounded, capacity, len) is Ok <==> (start_bound_min(start)
            <= capacity && len + capacity <= isize::MAX),
        resolved_range(start, Bound::Unbounded, capacity, len) matches Ok((min, max)) ==> min
            == start_bound_min(start) && max == capacity,
        start_bound_min(start) > capacity ==> resolved_range(start, Bound::Unbounded, capacity, len)
            == Err::<(usize, usize), RangeError>(
            RangeError::MinAboveMax { min: start_bound_min(start) as usize, max: capacity },
        ),
{
}

/// The `(min, max)` that a range resolves to for a container of `len`
/// bytes and the given capacity, or why it cannot be read.
pub open spec fn resolved_range(start: Bound, end: Bound, capacity: usize, len: usize) -> Result<
    (usize, usize),
    RangeError,
> {
    let min = start_bound_min(start);
    let max = range_max(end, capacity as int);
    if min > max {
        Err(RangeError::MinAboveMax { min: min as usize, max: max as usize })
    } else if len + max > isize::MAX {
        Err(RangeError::CapacityOverflow { len, max: max as usize })
    } else {
        Ok((min as usize, max as usize))
    }
}

/// Resolves the bounds of a range for a container of `len` bytes whose
/// capacity is `capacity`.
///
/// An unbounded start means 0; an unbounded end means `capacity`.
pub fn resolve_range(start: Bound, end: Bound, capacity: usize, len: usize) -> (r: Result<
    (usize, usize),
    RangeError,
>)
    requires
        bounds_computable(start, end),
    ensures
        r == resolved_range(start, end, capacity, len),
{
    let min = match start {
        Bound::Included(v) => v,
        Bound::Excluded(v) => v + 1,
        Bound::Unbounded => 0,
    };
    let max = match end {
        Bound::Included(v) => v,
        Bound::Excluded(v) => v - 1,
        Bound::Unbounded => capacity,
    };
    if min > max {
        return Err(RangeError::MinAboveMax { min, max });
    }
    if len > isize::MAX as usize || max > isize::MAX as usize - len {
        return Err(RangeError::CapacityOverflow { len, max });
    }
    Ok((min, max))
}

/// The bounds a read state holds, or the error: what
/// [`resolved_range`] is compared with.
pub open spec fn read_outcome<'a, C: ?Sized, Reader: ?Sized>(
    r: Result<ReadToContainerRngFuture<'a, C, Reader>, RangeError>,
) -> Result<(usize, usize), RangeError> {
    match r {
        Ok(f) => Ok((f.min, f.max)),
        Err(e) => Err(e),
    }
}

/// The range can be read into a container that holds `len` bytes: its
/// bounds can be computed and, where its end is bounded, its minimum does
/// not exceed its maximum and room for the maximum fits past the bytes held.
///
/// An unbounded end stands for the container's capacity, which only a call
/// can tell; what it decides is answered with a [`RangeError`].
pub open spec fn range_readable(start: Bound, end: Bound, len: int) -> bool {
    &&& bounds_computable(start, end)
    &&& !(end is Unbounded) ==> {
        &&& start_bound_min(start) <= end_bound_max(end)
        &&& len + end_bound_max(end) <= isize::MAX
    }
}

/// * `start`, `end` - The start of the range gives the minimum of bytes to
///   read in, the end gives the maximum. An unbounded start means 0; an
///   unbounded end means the capacity of `container`. The minimum must not
///   exceed the maximum.
///
/// Reserves room for the maximum in `container`.
///
/// For a bounded end the bounds are those given. For an unbounded end they
/// are those of [`resolve_range`] for the capacity that `container` reports,
/// which the allocator decides: a minimum above that capacity is refused
/// with [`RangeError::MinAboveMax`], and a capacity that cannot be reserved
/// again past the bytes held with [`RangeError::CapacityOverflow`]; nothing
/// is reserved then.
///
/// NOTE that the reads never modify the existing data.
pub fn read_to_container_rng<'a, C, Reader>(
    reader: &'a mut Reader,
    container: &'a mut C,
    start: Bound,
    end: Bound,
) -> (r: Result<ReadToContainerRngFuture<'a, C, Reader>, RangeError>) where
    C: Container + ?Sized,
    Reader: ?Sized,

    requires
        range_readable(start, end, old(container).contents().len() as int),
    ensures
        !(end is Unbounded) ==> read_outcome(r) == Ok::<(usize, usize), RangeError>(
            (start_bound_min(start) as usize, end_bound_max(end) as usize),
        ),
        exists|capacity: usize|
            capacity >= old(container).contents().len() && read_outcome(r)
                == #[trigger] resolved_range(
                start,
                end,
                capacity,
                old(container).contents().len() as usize,
            ),
        end is Unbounded ==> exists|capacity: usize|
            #[trigger] call_ensures(C::capacity, (&*old(container),), capacity) && read_outcome(r)
                == resolved_range(start, end, capacity, old(container).contents().len() as usize),
        r is Err ==> final(container).contents() == old(container).contents(),
        r matches Ok(f) ==> {
            &&& f.wf()
            &&& f.container.contents() == old(container).contents()
            &&& final(f.container).contents() == final(container).contents()
        },
{
    let len = container.len();
    let capacity = match end {
        Bound::Unbounded => container.capacity(),
        _ => len,
    };
    assert(len == old(container).contents().len() as usize);
    match resolve_range(start, end, capacity, len) {
        Ok((min, max)) => {
            container.reserve(max);
            let f = ReadToContainerRngFuture { reader, container, min, max };
            assert(read_outcome(Ok::<ReadToContainerRngFuture<'a, C, Reader>, RangeError>(f))
                == resolved_range(start, end, capacity, len));
            Ok(f)
        },
        Err(e) => Err(e),
    }
}

} // verus!
