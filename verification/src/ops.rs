//! The operators `!`, `&`, `|` and `^` on sets of squares and sets of
//! directions, and the conversions of a square and of a direction into the
//! set that holds only it.

use vstd::prelude::*;
use vstd::std_specs::ops::{NotSpecImpl, BitAndSpecImpl, BitOrSpecImpl, BitXorSpecImpl};
use vstd::std_specs::convert::FromSpecImpl;
use crate::shogi::Square;
use crate::direction::{Direction, DirectionSet};
use crate::bitboard::{Bitboard, Bitboard256};
use crate::effect::DirectionSetPair;

verus! {

impl core::ops::Not for DirectionSet {
    type Output = DirectionSet;

    /// The complement.
    fn not(self) -> (r: DirectionSet) {
        DirectionSet(!self.0)
    }
}

impl NotSpecImpl for DirectionSet {
    open spec fn obeys_not_spec() -> bool {
        true
    }

    open spec fn not_req(self) -> bool {
        true
    }

    open spec fn not_spec(self) -> DirectionSet {
        DirectionSet(!self.0)
    }
}

impl core::ops::BitAnd for DirectionSet {
    type Output = DirectionSet;

    /// The intersection.
    fn bitand(self, rhs: DirectionSet) -> (r: DirectionSet) {
        DirectionSet(self.0 & rhs.0)
    }
}

impl BitAndSpecImpl for DirectionSet {
    open spec fn obeys_bitand_spec() -> bool {
        true
    }

    open spec fn bitand_req(self, rhs: DirectionSet) -> bool {
        true
    }

    open spec fn bitand_spec(self, rhs: DirectionSet) -> DirectionSet {
        DirectionSet(self.0 & rhs.0)
    }
}

impl core::ops::BitOr for DirectionSet {
    type Output = DirectionSet;

    /// The union.
    fn bitor(self, rhs: DirectionSet) -> (r: DirectionSet) {
        DirectionSet(self.0 | rhs.0)
    }
}

impl BitOrSpecImpl for DirectionSet {
    open spec fn obeys_bitor_spec() -> bool {
        true
    }

    open spec fn bitor_req(self, rhs: DirectionSet) -> bool {
        true
    }

    open spec fn bitor_spec(self, rhs: DirectionSet) -> DirectionSet {
        DirectionSet(self.0 | rhs.0)
    }
}

impl core::ops::BitXor for DirectionSet {
    type Output = DirectionSet;

    /// The symmetric difference.
    fn bitxor(self, rhs: DirectionSet) -> (r: DirectionSet) {
        DirectionSet(self.0 ^ rhs.0)
    }
}

impl BitXorSpecImpl for DirectionSet {
    open spec fn obeys_bitxor_spec() -> bool {
        true
    }

    open spec fn bitxor_req(self, rhs: DirectionSet) -> bool {
        true
    }

    open spec fn bitxor_spec(self, rhs: DirectionSet) -> DirectionSet {
        DirectionSet(self.0 ^ rhs.0)
    }
}

impl core::ops::Not for Bitboard {
    type Output = Bitboard;

    /// The complement within the board.
    fn not(self) -> (r: Bitboard) {
        Bitboard { lo: self.lo ^ 0x7FFF_FFFF_FFFF_FFFF, hi: self.hi ^ 0x3FFFF }
    }
}

impl NotSpecImpl for Bitboard {
    open spec fn obeys_not_spec() -> bool {
        true
    }

    open spec fn not_req(self) -> bool {
        true
    }

    open spec fn not_spec(self) -> Bitboard {
        Bitboard { lo: self.lo ^ 0x7FFF_FFFF_FFFF_FFFF, hi: self.hi ^ 0x3FFFF }
    }
}

impl core::ops::BitAnd for Bitboard {
    type Output = Bitboard;

    /// The intersection.
    fn bitand(self, rhs: Bitboard) -> (r: Bitboard) {
        Bitboard { lo: self.lo & rhs.lo, hi: self.hi & rhs.hi }
    }
}

impl BitAndSpecImpl for Bitboard {
    open spec fn obeys_bitand_spec() -> bool {
        true
    }

    open spec fn bitand_req(self, rhs: Bitboard) -> bool {
        true
    }

    open spec fn bitand_spec(self, rhs: Bitboard) -> Bitboard {
        Bitboard { lo: self.lo & rhs.lo, hi: self.hi & rhs.hi }
    }
}

impl core::ops::BitOr for Bitboard {
    type Output = Bitboard;

    /// The union.
    fn bitor(self, rhs: Bitboard) -> (r: Bitboard) {
        Bitboard { lo: self.lo | rhs.lo, hi: self.hi | rhs.hi }
    }
}

impl BitOrSpecImpl for Bitboard {
    open spec fn obeys_bitor_spec() -> bool {
        true
    }

    open spec fn bitor_req(self, rhs: Bitboard) -> bool {
        true
    }

    open spec fn bitor_spec(self, rhs: Bitboard) -> Bitboard {
        Bitboard { lo: self.lo | rhs.lo, hi: self.hi | rhs.hi }
    }
}

impl core::ops::BitXor for Bitboard {
    type Output = Bitboard;

    /// The symmetric difference.
    fn bitxor(self, rhs: Bitboard) -> (r: Bitboard) {
        Bitboard { lo: self.lo ^ rhs.lo, hi: self.hi ^ rhs.hi }
    }
}

impl BitXorSpecImpl for Bitboard {
    open spec fn obeys_bitxor_spec() -> bool {
        true
    }

    open spec fn bitxor_req(self, rhs: Bitboard) -> bool {
        true
    }

    open spec fn bitxor_spec(self, rhs: Bitboard) -> Bitboard {
        Bitboard { lo: self.lo ^ rhs.lo, hi: self.hi ^ rhs.hi }
    }
}

impl core::ops::BitAnd for DirectionSetPair {
    type Output = DirectionSetPair;

    /// The intersection, side by side.
    fn bitand(self, rhs: DirectionSetPair) -> (r: DirectionSetPair) {
        DirectionSetPair(self.0 & rhs.0)
    }
}

impl BitAndSpecImpl for DirectionSetPair {
    open spec fn obeys_bitand_spec() -> bool {
        true
    }

    open spec fn bitand_req(self, rhs: DirectionSetPair) -> bool {
        true
    }

    open spec fn bitand_spec(self, rhs: DirectionSetPair) -> DirectionSetPair {
        DirectionSetPair(self.0 & rhs.0)
    }
}

impl core::ops::BitOr for DirectionSetPair {
    type Output = DirectionSetPair;

    /// The union, side by side.
    fn bitor(self, rhs: DirectionSetPair) -> (r: DirectionSetPair) {
        DirectionSetPair(self.0 | rhs.0)
    }
}

impl BitOrSpecImpl for DirectionSetPair {
    open spec fn obeys_bitor_spec() -> bool {
        true
    }

    open spec fn bitor_req(self, rhs: DirectionSetPair) -> bool {
        true
    }

    open spec fn bitor_spec(self, rhs: DirectionSetPair) -> DirectionSetPair {
        DirectionSetPair(self.0 | rhs.0)
    }
}

impl core::ops::BitXor for DirectionSetPair {
    type Output = DirectionSetPair;

    /// The symmetric difference, side by side.
    fn bitxor(self, rhs: DirectionSetPair) -> (r: DirectionSetPair) {
        DirectionSetPair(self.0 ^ rhs.0)
    }
}

impl BitXorSpecImpl for DirectionSetPair {
    open spec fn obeys_bitxor_spec() -> bool {
        true
    }

    open spec fn bitxor_req(self, rhs: DirectionSetPair) -> bool {
        true
    }

    open spec fn bitxor_spec(self, rhs: DirectionSetPair) -> DirectionSetPair {
        DirectionSetPair(self.0 ^ rhs.0)
    }
}

impl core::ops::Not for DirectionSetPair {
    type Output = DirectionSetPair;

    /// The complement, side by side.
    fn not(self) -> (r: DirectionSetPair) {
        DirectionSetPair(!self.0)
    }
}

impl NotSpecImpl for DirectionSetPair {
    open spec fn obeys_not_spec() -> bool {
        true
    }

    open spec fn not_req(self) -> bool {
        true
    }

    open spec fn not_spec(self) -> DirectionSetPair {
        DirectionSetPair(!self.0)
    }
}

impl core::ops::BitAnd for Bitboard256 {
    type Output = Bitboard256;

    /// The intersection, set by set.
    fn bitand(self, rhs: Bitboard256) -> (r: Bitboard256) {
        Bitboard256 { lo: Bitboard { lo: self.lo.lo & rhs.lo.lo, hi: self.lo.hi & rhs.lo.hi }, hi: Bitboard { lo: self.hi.lo & rhs.hi.lo, hi: self.hi.hi & rhs.hi.hi } }
    }
}

impl BitAndSpecImpl for Bitboard256 {
    open spec fn obeys_bitand_spec() -> bool {
        true
    }

    open spec fn bitand_req(self, rhs: Bitboard256) -> bool {
        true
    }

    open spec fn bitand_spec(self, rhs: Bitboard256) -> Bitboard256 {
        Bitboard256 { lo: Bitboard { lo: self.lo.lo & rhs.lo.lo, hi: self.lo.hi & rhs.lo.hi }, hi: Bitboard { lo: self.hi.lo & rhs.hi.lo, hi: self.hi.hi & rhs.hi.hi } }
    }
}

impl core::ops::BitOr for Bitboard256 {
    type Output = Bitboard256;

    /// The union, set by set.
    fn bitor(self, rhs: Bitboard256) -> (r: Bitboard256) {
        Bitboard256 { lo: Bitboard { lo: self.lo.lo | rhs.lo.lo, hi: self.lo.hi | rhs.lo.hi }, hi: Bitboard { lo: self.hi.lo | rhs.hi.lo, hi: self.hi.hi | rhs.hi.hi } }
    }
}

impl BitOrSpecImpl for Bitboard256 {
    open spec fn obeys_bitor_spec() -> bool {
        true
    }

    open spec fn bitor_req(self, rhs: Bitboard256) -> bool {
        true
    }

    open spec fn bitor_spec(self, rhs: Bitboard256) -> Bitboard256 {
        Bitboard256 { lo: Bitboard { lo: self.lo.lo | rhs.lo.lo, hi: self.lo.hi | rhs.lo.hi }, hi: Bitboard { lo: self.hi.lo | rhs.hi.lo, hi: self.hi.hi | rhs.hi.hi } }
    }
}

impl core::ops::BitXor for Bitboard256 {
    type Output = Bitboard256;

    /// The symmetric difference, set by set.
    fn bitxor(self, rhs: Bitboard256) -> (r: Bitboard256) {
        Bitboard256 { lo: Bitboard { lo: self.lo.lo ^ rhs.lo.lo, hi: self.lo.hi ^ rhs.lo.hi }, hi: Bitboard { lo: self.hi.lo ^ rhs.hi.lo, hi: self.hi.hi ^ rhs.hi.hi } }
    }
}

impl BitXorSpecImpl for Bitboard256 {
    open spec fn obeys_bitxor_spec() -> bool {
        true
    }

    open spec fn bitxor_req(self, rhs: Bitboard256) -> bool {
        true
    }

    open spec fn bitxor_spec(self, rhs: Bitboard256) -> Bitboard256 {
        Bitboard256 { lo: Bitboard { lo: self.lo.lo ^ rhs.lo.lo, hi: self.lo.hi ^ rhs.lo.hi }, hi: Bitboard { lo: self.hi.lo ^ rhs.hi.lo, hi: self.hi.hi ^ rhs.hi.hi } }
    }
}

impl From<Square> for Bitboard {
    /// The set that holds only `sq`; the empty set for a square that is
    /// off the board.
    fn from(sq: Square) -> (r: Bitboard) {
        if sq.is_on_board() {
            Bitboard::from_square(sq)
        } else {
            Bitboard { lo: 0, hi: 0 }
        }
    }
}

impl FromSpecImpl<Square> for Bitboard {
    open spec fn obeys_from_spec() -> bool {
        true
    }

    open spec fn from_spec(sq: Square) -> Bitboard {
        if sq.on_board() {
            Bitboard::single(sq)
        } else {
            Bitboard { lo: 0, hi: 0 }
        }
    }
}

impl From<Direction> for DirectionSet {
    /// The set that holds only `dir`.
    fn from(dir: Direction) -> (r: DirectionSet) {
        DirectionSet::from_direction(dir)
    }
}

impl FromSpecImpl<Direction> for DirectionSet {
    open spec fn obeys_from_spec() -> bool {
        true
    }

    open spec fn from_spec(dir: Direction) -> DirectionSet {
        DirectionSet::single(dir)
    }
}

} // verus!
