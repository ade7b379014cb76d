//! Wrapping arithmetic that assigns in place.

use vstd::prelude::*;

verus! {

/// Adding in place, wrapping around at the bounds of the type.
pub trait WrappingAddAssign: Sized {
    /// The wrapped sum, as a specification.
    spec fn wrapped_sum(self, rhs: Self) -> Self;

    /// Replaces `self` by the wrapped sum of `self` and `rhs`.
    fn wrapping_add_assign(&mut self, rhs: Self)
        ensures
            *final(self) == old(self).wrapped_sum(rhs),
    ;
}

/// Subtracting in place, wrapping around at the bounds of the type.
pub trait WrappingSubAssign: Sized {
    /// The wrapped difference, as a specification.
    spec fn wrapped_diff(self, rhs: Self) -> Self;

    /// Replaces `self` by the wrapped difference of `self` and `rhs`.
    fn wrapping_sub_assign(&mut self, rhs: Self)
        ensures
            *final(self) == old(self).wrapped_diff(rhs),
    ;
}

impl WrappingAddAssign for u8 {
    open spec fn wrapped_sum(self, rhs: u8) -> u8 {
        ((self + rhs) % 256) as u8
    }

    fn wrapping_add_assign(&mut self, rhs: u8) {
        *self = self.wrapping_add(rhs);
    }
}

impl WrappingSubAssign for u8 {
    open spec fn wrapped_diff(self, rhs: u8) -> u8 {
        ((self - rhs) % 256) as u8
    }

    fn wrapping_sub_assign(&mut self, rhs: u8) {
        *self = self.wrapping_sub(rhs);
    }
}

} // verus!
