//! Updating a running minimum or maximum.

use vstd::prelude::*;

verus! {

/// Lowers `xmin` to `x` when `x` is smaller; says whether it did.
pub fn chmin(xmin: &mut u8, x: u8) -> (r: bool)
    ensures
        r == (x < *old(xmin)),
        *final(xmin) == (if x < *old(xmin) { x } else { *old(xmin) }),
{
    if x < *xmin {
        *xmin = x;
        true
    } else {
        false
    }
}

/// Raises `xmax` to `x` when `x` is larger; says whether it did.
pub fn chmax(xmax: &mut u8, x: u8) -> (r: bool)
    ensures
        r == (*old(xmax) < x),
        *final(xmax) == (if *old(xmax) < x { x } else { *old(xmax) }),
{
    if *xmax < x {
        *xmax = x;
        true
    } else {
        false
    }
}

} // verus!
