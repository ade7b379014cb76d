//! The order of squares in the console's numbering.

use vstd::prelude::*;
use core::cmp::Ordering;
use crate::shogi::Square;
use crate::naitou::{naitou_square_to_value, value_of_square};

verus! {

/// Compares two on-board squares by their console numbers.
pub fn naitou_square_cmp(lhs: Square, rhs: Square) -> (r: Ordering)
    requires
        lhs.on_board(),
        rhs.on_board(),
    ensures
        r == Ordering::Less <==> value_of_square(lhs) < value_of_square(rhs),
        r == Ordering::Equal <==> lhs == rhs,
        r == Ordering::Greater <==> value_of_square(lhs) > value_of_square(rhs),
{
    let a: u8 = naitou_square_to_value(lhs);
    let b: u8 = naitou_square_to_value(rhs);
    if a < b {
        Ordering::Less
    } else if a == b {
        Ordering::Equal
    } else {
        Ordering::Greater
    }
}

} // verus!
