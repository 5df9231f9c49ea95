//! Filling I/O slice slots from a list of slices.

use vstd::prelude::*;
use std::io::IoSlice;

verus! {

/// Copies the slices of `iterable` into the slots of `uninit_io_slices`, as
/// many as fit, and returns the slots that were filled.
pub fn init_maybeuninit_io_slices_mut<'a, 'io_slice>(
    uninit_io_slices: &'a mut [IoSlice<'io_slice>],
    iterable: &[IoSlice<'io_slice>],
) -> (r: &'a mut [IoSlice<'io_slice>])
    ensures
        r@.len() == if old(uninit_io_slices)@.len() <= iterable@.len() {
            old(uninit_io_slices)@.len()
        } else {
            iterable@.len()
        },
        r@ == iterable@.take(r@.len() as int),
        final(uninit_io_slices)@ == final(r)@ + old(uninit_io_slices)@.skip(r@.len() as int),
{
    let n = uninit_io_slices.len();
    let m = iterable.len();
    let cnt = if n <= m {
        n
    } else {
        m
    };
    let ghost orig = uninit_io_slices@;
    let mut i: usize = 0;
    while i < cnt
        invariant
            i <= cnt,
            cnt <= n,
            cnt <= m,
            n == uninit_io_slices@.len(),
            m == iterable@.len(),
            orig.len() == n,
            forall|j: int| 0 <= j < i ==> uninit_io_slices@[j] == iterable@[j],
            forall|j: int| i <= j < n ==> uninit_io_slices@[j] == orig[j],
        decreases cnt - i,
    {
        uninit_io_slices[i] = iterable[i];
        i = i + 1;
    }
    let (filled, rest) = uninit_io_slices.split_at_mut(cnt);
    assert(filled@ =~= iterable@.take(cnt as int));
    assert(rest@ =~= orig.skip(cnt as int));
    filled
}

} // verus!
