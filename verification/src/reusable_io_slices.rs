//! A fixed number of I/O slice slots, allocated once and written over for
//! each vectored write.

use vstd::prelude::*;
use std::io::IoSlice;

use crate::foreign::io_slice_view;

verus! {

/// A boxed run of [`IoSlice`] slots that can be filled again for each
/// vectored write, without allocating.
///
/// The slots hold slices of static data; slices that borrow shorter-lived
/// buffers are gathered by the functions that write them, bounded by the
/// number of slots here.
#[derive(Debug)]
pub struct ReusableIoSlices {
    slots: Vec<IoSlice<'static>>,
}

impl View for ReusableIoSlices {
    type V = Seq<IoSlice<'static>>;

    closed spec fn view(&self) -> Seq<IoSlice<'static>> {
        self.slots@
    }
}

impl ReusableIoSlices {
    /// Create new [`ReusableIoSlices`] with `cap` slots, each an empty
    /// slice.
    pub fn new(cap: usize) -> (r: Self)
        requires
            cap > 0,
        ensures
            r@.len() == cap,
            forall|i: int| 0 <= i < cap ==> io_slice_view(#[trigger] r@[i]).len() == 0,
    {
        let empty: &'static [u8] = &[];
        let mut slots: Vec<IoSlice<'static>> = Vec::with_capacity(cap);
        let mut i: usize = 0;
        while i < cap
            invariant
                i <= cap,
                slots@.len() == i,
                empty@.len() == 0,
                forall|j: int| 0 <= j < i ==> io_slice_view(#[trigger] slots@[j]).len() == 0,
            decreases cap - i,
        {
            slots.push(IoSlice::new(empty));
            i = i + 1;
        }
        ReusableIoSlices { slots }
    }

    /// Return the underlying io_slices, to be written over.
    pub fn get_mut(&mut self) -> (r: &mut [IoSlice<'static>])
        ensures
            r@ == old(self)@,
            final(r)@ == final(self)@,
    {
        self.slots.as_mut_slice()
    }

    /// Return the underlying io_slices.
    pub fn get(&self) -> (r: &[IoSlice<'static>])
        ensures
            r@ == self@,
    {
        self.slots.as_slice()
    }
}

} // verus!
