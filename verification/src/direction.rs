//! The eight directions, sets of directions, and squares with wall counters.
//!
//! Directions are numbered so that a direction and its opposite add up to 7:
//!
//! ```text
//! 5 3 0
//! 6 . 1
//! 7 4 2
//! ```
//!
//! Files grow to the left and ranks grow downwards, so "right" lowers the
//! file index and "up" lowers the rank index.

use vstd::prelude::*;
use crate::shogi::Square;
use crate::bitop::lsb_u8;

verus! {

/// One of the eight directions.
#[derive(Clone, Copy, Debug, PartialEq, Eq, Structural, Hash)]
pub enum Direction {
    RU,
    R,
    RD,
    U,
    D,
    LU,
    L,
    LD,
}

impl Direction {
    /// The number of the direction, 0 to 7.
    pub open spec fn index(self) -> int {
        match self {
            Direction::RU => 0,
            Direction::R => 1,
            Direction::RD => 2,
            Direction::U => 3,
            Direction::D => 4,
            Direction::LU => 5,
            Direction::L => 6,
            Direction::LD => 7,
        }
    }

    /// The direction with number `i`.
    pub open spec fn of_index(i: int) -> Direction {
        if i == 0 {
            Direction::RU
        } else if i == 1 {
            Direction::R
        } else if i == 2 {
            Direction::RD
        } else if i == 3 {
            Direction::U
        } else if i == 4 {
            Direction::D
        } else if i == 5 {
            Direction::LU
        } else if i == 6 {
            Direction::L
        } else {
            Direction::LD
        }
    }

    /// Change of the file index by one step in this direction.
    pub open spec fn dc(self) -> int {
        match self {
            Direction::RU | Direction::R | Direction::RD => -1,
            Direction::U | Direction::D => 0,
            Direction::LU | Direction::L | Direction::LD => 1,
        }
    }

    /// Change of the rank index by one step in this direction.
    pub open spec fn dr(self) -> int {
        match self {
            Direction::RU | Direction::U | Direction::LU => -1,
            Direction::R | Direction::L => 0,
            Direction::RD | Direction::D | Direction::LD => 1,
        }
    }

    /// The opposite direction, as a specification.
    pub open spec fn opp(self) -> Direction {
        Direction::of_index(7 - self.index())
    }

    /// The value of the single bit that stands for this direction in a set.
    pub open spec fn bit(self) -> int {
        match self {
            Direction::RU => 1,
            Direction::R => 2,
            Direction::RD => 4,
            Direction::U => 8,
            Direction::D => 16,
            Direction::LU => 32,
            Direction::L => 64,
            Direction::LD => 128,
        }
    }

    /// The direction with number `inner`, which must be below 8.
    pub fn from_inner(inner: u32) -> (r: Direction)
        requires
            inner < 8,
        ensures
            r == Direction::of_index(inner as int),
            r.index() == inner,
    {
        if inner == 0 {
            Direction::RU
        } else if inner == 1 {
            Direction::R
        } else if inner == 2 {
            Direction::RD
        } else if inner == 3 {
            Direction::U
        } else if inner == 4 {
            Direction::D
        } else if inner == 5 {
            Direction::LU
        } else if inner == 6 {
            Direction::L
        } else {
            Direction::LD
        }
    }

    /// The number of the direction.
    pub fn inner(self) -> (r: u32)
        ensures
            r == self.index(),
            r < 8,
    {
        match self {
            Direction::RU => 0,
            Direction::R => 1,
            Direction::RD => 2,
            Direction::U => 3,
            Direction::D => 4,
            Direction::LU => 5,
            Direction::L => 6,
            Direction::LD => 7,
        }
    }

    /// Every value of this type is one of the eight directions.
    pub fn is_valid(self) -> (r: bool)
        ensures
            r,
    {
        true
    }

    /// The opposite direction.
    pub fn inv(self) -> (r: Direction)
        ensures
            r == self.opp(),
            r.index() == 7 - self.index(),
            r.dc() == -self.dc(),
            r.dr() == -self.dr(),
    {
        Direction::from_inner(7 - self.inner())
    }

    /// The amount to add to a [`SquareWithWall`] for one step in this
    /// direction.
    pub fn to_sqww_delta(self) -> (r: i32)
        ensures
            r == SquareWithWall::delta_of(self.dc(), self.dr()),
    {
        match self {
            Direction::RU => SquareWithWall::DIR_RU,
            Direction::R => SquareWithWall::DIR_R,
            Direction::RD => SquareWithWall::DIR_RD,
            Direction::U => SquareWithWall::DIR_U,
            Direction::D => SquareWithWall::DIR_D,
            Direction::LU => SquareWithWall::DIR_LU,
            Direction::L => SquareWithWall::DIR_L,
            Direction::LD => SquareWithWall::DIR_LD,
        }
    }
}

/// A square together with four small counters: how many squares lie between
/// it and the right, upper, lower and left edge.
///
/// * bits 0-7: the square
/// * bit 8: always set at the start, so that a negative square does not
///   borrow from the counters
/// * bits 9-13: squares to the right edge
/// * bits 14-18: squares to the upper edge
/// * bits 19-23: squares to the lower edge
/// * bits 24-28: squares to the left edge
///
/// A step in any direction is one addition, and a step off the board shows
/// as the top bit of one counter.
#[derive(Clone, Copy, Debug, PartialEq, Eq, Structural, Hash)]
pub struct SquareWithWall(pub i32);

impl SquareWithWall {
    pub const DIR_R: i32 = 16776695;

    pub const DIR_U: i32 = 507903;

    pub const DIR_D: i32 = -507903;

    pub const DIR_L: i32 = -16776695;

    pub const DIR_RU: i32 = 17284598;

    pub const DIR_RD: i32 = 16268792;

    pub const DIR_LU: i32 = -16268792;

    pub const DIR_LD: i32 = -17284598;

    pub const DIR_RUU: i32 = 17792501;

    pub const DIR_RDD: i32 = 15760889;

    pub const DIR_LUU: i32 = -15760889;

    pub const DIR_LDD: i32 = -17792501;

    /// The top bits of the four counters.
    pub const WALL_MASK: i32 = 277094400;

    /// The amount that moves `dc` files to the left and `dr` ranks down.
    pub open spec fn delta_of(dc: int, dr: int) -> int {
        -16776695 * dc - 507903 * dr
    }

    /// The value that stands for file index `c` and rank index `r`.
    pub open spec fn encode(c: int, r: int) -> int {
        138412288 + Self::delta_of(c, r)
    }

    /// Whether this value stands for file index `c` and rank index `r`, each
    /// at most two steps off the board.
    pub open spec fn is_at(self, c: int, r: int) -> bool {
        -2 <= c <= 10 && -2 <= r <= 10 && self.0 == Self::encode(c, r)
    }

    /// The value for an on-board square.
    pub fn from_square(sq: Square) -> (r: SquareWithWall)
        requires
            sq.on_board(),
        ensures
            r.is_at(sq.c(), sq.r()),
    {
        let c: i32 = sq.0 / 9;
        let r: i32 = sq.0 % 9;
        SquareWithWall(138412288 + c * SquareWithWall::DIR_L + r * SquareWithWall::DIR_D)
    }

    /// Whether no counter has gone negative.  For a value at most two steps
    /// off the board this says whether it is on the board.
    pub fn is_on_board(self) -> (b: bool)
        ensures
            b == ((self.0 & SquareWithWall::WALL_MASK) == 0),
            forall|c: int, r: int| #[trigger]
                self.is_at(c, r) ==> (b <==> (0 <= c <= 8 && 0 <= r <= 8)),
    {
        proof {
            assert forall|c: int, r: int| #[trigger] self.is_at(c, r) implies ((self.0
                & SquareWithWall::WALL_MASK) == 0 <==> (0 <= c <= 8 && 0 <= r <= 8)) by {
                lemma_wall_bits(c, r);
            }
        }
        (self.0 & SquareWithWall::WALL_MASK) == 0
    }

    /// The square held in the low eight bits.
    pub fn to_square(self) -> (r: Square)
        ensures
            r.0 == self.0 & 0xFF,
            forall|c: int, w: int| #[trigger]
                self.is_at(c, w) && 0 <= c <= 8 && 0 <= w <= 8 ==> r == Square::at(c, w),
    {
        proof {
            assert forall|c: int, w: int| #[trigger]
                self.is_at(c, w) && 0 <= c <= 8 && 0 <= w <= 8 implies self.0 & 0xFF == 9 * c
                + w by {
                lemma_wall_bits(c, w);
            }
        }
        Square(self.0 & 0xFF)
    }

    /// The value moved by `delta`.
    pub fn add_delta(self, delta: i32) -> (r: SquareWithWall)
        requires
            i32::MIN <= self.0 + delta <= i32::MAX,
        ensures
            r.0 == self.0 + delta,
    {
        SquareWithWall(self.0 + delta)
    }
}

/// What the counters of an encoded value say about the coordinates.
pub proof fn lemma_wall_bits(c: int, r: int)
    requires
        -2 <= c <= 10,
        -2 <= r <= 10,
    ensures
        ((SquareWithWall::encode(c, r) as i32) & SquareWithWall::WALL_MASK == 0) <==> (0 <= c <= 8
            && 0 <= r <= 8),
        0 <= c <= 8 && 0 <= r <= 8 ==> (SquareWithWall::encode(c, r) as i32) & 0xFF == 9 * c + r,
{
    let ci: i32 = c as i32;
    let ri: i32 = r as i32;
    let s: i32 = SquareWithWall::encode(c, r) as i32;
    assert(((s & 277094400i32 == 0) <==> (0 <= ci <= 8 && 0 <= ri <= 8)) && ((0 <= ci <= 8 && 0
        <= ri <= 8) ==> (s & 0xFFi32) == 9 * ci + ri)) by (bit_vector)
        requires
            -2 <= ci <= 10,
            -2 <= ri <= 10,
            s == 138412288i32 - 16776695i32 * ci - 507903i32 * ri,
    ;
}

/// A set of directions, one bit for each.
#[derive(Clone, Copy, Debug, PartialEq, Eq, Structural, Hash)]
pub struct DirectionSet(pub u8);

/// Whether the bit of value `p`, a power of two, is set in `x`.
#[verifier::opaque]
pub open spec fn bit_at(x: u8, p: u8) -> bool {
    (x / p) % 2 == 1
}

/// How the bitwise operators act on each bit of a byte.
pub proof fn lemma_byte_ops(a: u8, b: u8)
    ensures
        (bit_at((a | b), 1) == (bit_at(a, 1) || bit_at(b, 1))) && (bit_at((a | b), 2) == (bit_at(a, 2) || bit_at(b, 2))) && (bit_at((a | b), 4) == (bit_at(a, 4) || bit_at(b, 4))) && (bit_at((a | b), 8) == (bit_at(a, 8) || bit_at(b, 8))) && (bit_at((a | b), 16) == (bit_at(a, 16) || bit_at(b, 16))) && (bit_at((a | b), 32) == (bit_at(a, 32) || bit_at(b, 32))) && (bit_at((a | b), 64) == (bit_at(a, 64) || bit_at(b, 64))) && (bit_at((a | b), 128) == (bit_at(a, 128) || bit_at(b, 128))),
        (bit_at((a & b), 1) == (bit_at(a, 1) && bit_at(b, 1))) && (bit_at((a & b), 2) == (bit_at(a, 2) && bit_at(b, 2))) && (bit_at((a & b), 4) == (bit_at(a, 4) && bit_at(b, 4))) && (bit_at((a & b), 8) == (bit_at(a, 8) && bit_at(b, 8))) && (bit_at((a & b), 16) == (bit_at(a, 16) && bit_at(b, 16))) && (bit_at((a & b), 32) == (bit_at(a, 32) && bit_at(b, 32))) && (bit_at((a & b), 64) == (bit_at(a, 64) && bit_at(b, 64))) && (bit_at((a & b), 128) == (bit_at(a, 128) && bit_at(b, 128))),
        (bit_at((a ^ b), 1) == (bit_at(a, 1) != bit_at(b, 1))) && (bit_at((a ^ b), 2) == (bit_at(a, 2) != bit_at(b, 2))) && (bit_at((a ^ b), 4) == (bit_at(a, 4) != bit_at(b, 4))) && (bit_at((a ^ b), 8) == (bit_at(a, 8) != bit_at(b, 8))) && (bit_at((a ^ b), 16) == (bit_at(a, 16) != bit_at(b, 16))) && (bit_at((a ^ b), 32) == (bit_at(a, 32) != bit_at(b, 32))) && (bit_at((a ^ b), 64) == (bit_at(a, 64) != bit_at(b, 64))) && (bit_at((a ^ b), 128) == (bit_at(a, 128) != bit_at(b, 128))),
        (bit_at((!a), 1) == !bit_at(a, 1)) && (bit_at((!a), 2) == !bit_at(a, 2)) && (bit_at((!a), 4) == !bit_at(a, 4)) && (bit_at((!a), 8) == !bit_at(a, 8)) && (bit_at((!a), 16) == !bit_at(a, 16)) && (bit_at((!a), 32) == !bit_at(a, 32)) && (bit_at((!a), 64) == !bit_at(a, 64)) && (bit_at((!a), 128) == !bit_at(a, 128)),
{
    reveal(bit_at);
    assert(((((a | b) / 1u8) % 2u8 == 1u8) == (((a / 1u8) % 2u8 == 1u8) || ((b / 1u8) % 2u8 == 1u8))) && ((((a | b) / 2u8) % 2u8 == 1u8) == (((a / 2u8) % 2u8 == 1u8) || ((b / 2u8) % 2u8 == 1u8))) && ((((a | b) / 4u8) % 2u8 == 1u8) == (((a / 4u8) % 2u8 == 1u8) || ((b / 4u8) % 2u8 == 1u8))) && ((((a | b) / 8u8) % 2u8 == 1u8) == (((a / 8u8) % 2u8 == 1u8) || ((b / 8u8) % 2u8 == 1u8))) && ((((a | b) / 16u8) % 2u8 == 1u8) == (((a / 16u8) % 2u8 == 1u8) || ((b / 16u8) % 2u8 == 1u8))) && ((((a | b) / 32u8) % 2u8 == 1u8) == (((a / 32u8) % 2u8 == 1u8) || ((b / 32u8) % 2u8 == 1u8))) && ((((a | b) / 64u8) % 2u8 == 1u8) == (((a / 64u8) % 2u8 == 1u8) || ((b / 64u8) % 2u8 == 1u8))) && ((((a | b) / 128u8) % 2u8 == 1u8) == (((a / 128u8) % 2u8 == 1u8) || ((b / 128u8) % 2u8 == 1u8)))) by (bit_vector);
    assert(((((a & b) / 1u8) % 2u8 == 1u8) == (((a / 1u8) % 2u8 == 1u8) && ((b / 1u8) % 2u8 == 1u8))) && ((((a & b) / 2u8) % 2u8 == 1u8) == (((a / 2u8) % 2u8 == 1u8) && ((b / 2u8) % 2u8 == 1u8))) && ((((a & b) / 4u8) % 2u8 == 1u8) == (((a / 4u8) % 2u8 == 1u8) && ((b / 4u8) % 2u8 == 1u8))) && ((((a & b) / 8u8) % 2u8 == 1u8) == (((a / 8u8) % 2u8 == 1u8) && ((b / 8u8) % 2u8 == 1u8))) && ((((a & b) / 16u8) % 2u8 == 1u8) == (((a / 16u8) % 2u8 == 1u8) && ((b / 16u8) % 2u8 == 1u8))) && ((((a & b) / 32u8) % 2u8 == 1u8) == (((a / 32u8) % 2u8 == 1u8) && ((b / 32u8) % 2u8 == 1u8))) && ((((a & b) / 64u8) % 2u8 == 1u8) == (((a / 64u8) % 2u8 == 1u8) && ((b / 64u8) % 2u8 == 1u8))) && ((((a & b) / 128u8) % 2u8 == 1u8) == (((a / 128u8) % 2u8 == 1u8) && ((b / 128u8) % 2u8 == 1u8)))) by (bit_vector);
    assert(((((a ^ b) / 1u8) % 2u8 == 1u8) == (((a / 1u8) % 2u8 == 1u8) != ((b / 1u8) % 2u8 == 1u8))) && ((((a ^ b) / 2u8) % 2u8 == 1u8) == (((a / 2u8) % 2u8 == 1u8) != ((b / 2u8) % 2u8 == 1u8))) && ((((a ^ b) / 4u8) % 2u8 == 1u8) == (((a / 4u8) % 2u8 == 1u8) != ((b / 4u8) % 2u8 == 1u8))) && ((((a ^ b) / 8u8) % 2u8 == 1u8) == (((a / 8u8) % 2u8 == 1u8) != ((b / 8u8) % 2u8 == 1u8))) && ((((a ^ b) / 16u8) % 2u8 == 1u8) == (((a / 16u8) % 2u8 == 1u8) != ((b / 16u8) % 2u8 == 1u8))) && ((((a ^ b) / 32u8) % 2u8 == 1u8) == (((a / 32u8) % 2u8 == 1u8) != ((b / 32u8) % 2u8 == 1u8))) && ((((a ^ b) / 64u8) % 2u8 == 1u8) == (((a / 64u8) % 2u8 == 1u8) != ((b / 64u8) % 2u8 == 1u8))) && ((((a ^ b) / 128u8) % 2u8 == 1u8) == (((a / 128u8) % 2u8 == 1u8) != ((b / 128u8) % 2u8 == 1u8)))) by (bit_vector);
    assert(((((!a) / 1u8) % 2u8 == 1u8) == !((a / 1u8) % 2u8 == 1u8)) && ((((!a) / 2u8) % 2u8 == 1u8) == !((a / 2u8) % 2u8 == 1u8)) && ((((!a) / 4u8) % 2u8 == 1u8) == !((a / 4u8) % 2u8 == 1u8)) && ((((!a) / 8u8) % 2u8 == 1u8) == !((a / 8u8) % 2u8 == 1u8)) && ((((!a) / 16u8) % 2u8 == 1u8) == !((a / 16u8) % 2u8 == 1u8)) && ((((!a) / 32u8) % 2u8 == 1u8) == !((a / 32u8) % 2u8 == 1u8)) && ((((!a) / 64u8) % 2u8 == 1u8) == !((a / 64u8) % 2u8 == 1u8)) && ((((!a) / 128u8) % 2u8 == 1u8) == !((a / 128u8) % 2u8 == 1u8))) by (bit_vector);
}

/// How shifting, zero and clearing the lowest set bit show in each bit of a
/// byte.
pub proof fn lemma_byte_low(a: u8)
    ensures
        (((a >> 0u8) & 1u8 == 1u8) == bit_at(a, 1)) && (((a >> 1u8) & 1u8 == 1u8) == bit_at(a, 2)) && (((a >> 2u8) & 1u8 == 1u8) == bit_at(a, 4)) && (((a >> 3u8) & 1u8 == 1u8) == bit_at(a, 8)) && (((a >> 4u8) & 1u8 == 1u8) == bit_at(a, 16)) && (((a >> 5u8) & 1u8 == 1u8) == bit_at(a, 32)) && (((a >> 6u8) & 1u8 == 1u8) == bit_at(a, 64)) && (((a >> 7u8) & 1u8 == 1u8) == bit_at(a, 128)),
        (a == 0u8) == !(bit_at(a, 1) || bit_at(a, 2) || bit_at(a, 4) || bit_at(a, 8) || bit_at(a, 16) || bit_at(a, 32) || bit_at(a, 64) || bit_at(a, 128)),
        a != 0 ==> ((bit_at((a & ((a - 1u8) as u8)), 1) == (bit_at(a, 1) && (false))) && (bit_at((a & ((a - 1u8) as u8)), 2) == (bit_at(a, 2) && (bit_at(a, 1)))) && (bit_at((a & ((a - 1u8) as u8)), 4) == (bit_at(a, 4) && (bit_at(a, 1) || bit_at(a, 2)))) && (bit_at((a & ((a - 1u8) as u8)), 8) == (bit_at(a, 8) && (bit_at(a, 1) || bit_at(a, 2) || bit_at(a, 4)))) && (bit_at((a & ((a - 1u8) as u8)), 16) == (bit_at(a, 16) && (bit_at(a, 1) || bit_at(a, 2) || bit_at(a, 4) || bit_at(a, 8)))) && (bit_at((a & ((a - 1u8) as u8)), 32) == (bit_at(a, 32) && (bit_at(a, 1) || bit_at(a, 2) || bit_at(a, 4) || bit_at(a, 8) || bit_at(a, 16)))) && (bit_at((a & ((a - 1u8) as u8)), 64) == (bit_at(a, 64) && (bit_at(a, 1) || bit_at(a, 2) || bit_at(a, 4) || bit_at(a, 8) || bit_at(a, 16) || bit_at(a, 32)))) && (bit_at((a & ((a - 1u8) as u8)), 128) == (bit_at(a, 128) && (bit_at(a, 1) || bit_at(a, 2) || bit_at(a, 4) || bit_at(a, 8) || bit_at(a, 16) || bit_at(a, 32) || bit_at(a, 64))))),
{
    reveal(bit_at);
    assert((((a >> 0u8) & 1u8 == 1u8) == ((a / 1u8) % 2u8 == 1u8)) && (((a >> 1u8) & 1u8 == 1u8) == ((a / 2u8) % 2u8 == 1u8)) && (((a >> 2u8) & 1u8 == 1u8) == ((a / 4u8) % 2u8 == 1u8)) && (((a >> 3u8) & 1u8 == 1u8) == ((a / 8u8) % 2u8 == 1u8)) && (((a >> 4u8) & 1u8 == 1u8) == ((a / 16u8) % 2u8 == 1u8)) && (((a >> 5u8) & 1u8 == 1u8) == ((a / 32u8) % 2u8 == 1u8)) && (((a >> 6u8) & 1u8 == 1u8) == ((a / 64u8) % 2u8 == 1u8)) && (((a >> 7u8) & 1u8 == 1u8) == ((a / 128u8) % 2u8 == 1u8))) by (bit_vector);
    assert((a == 0u8) == !(((a / 1u8) % 2u8 == 1u8) || ((a / 2u8) % 2u8 == 1u8) || ((a / 4u8) % 2u8 == 1u8) || ((a / 8u8) % 2u8 == 1u8) || ((a / 16u8) % 2u8 == 1u8) || ((a / 32u8) % 2u8 == 1u8) || ((a / 64u8) % 2u8 == 1u8) || ((a / 128u8) % 2u8 == 1u8))) by (bit_vector);
    if a != 0 {
        assert(((((a & ((a - 1u8) as u8)) / 1u8) % 2u8 == 1u8) == (((a / 1u8) % 2u8 == 1u8) && (false))) && ((((a & ((a - 1u8) as u8)) / 2u8) % 2u8 == 1u8) == (((a / 2u8) % 2u8 == 1u8) && (((a / 1u8) % 2u8 == 1u8)))) && ((((a & ((a - 1u8) as u8)) / 4u8) % 2u8 == 1u8) == (((a / 4u8) % 2u8 == 1u8) && (((a / 1u8) % 2u8 == 1u8) || ((a / 2u8) % 2u8 == 1u8)))) && ((((a & ((a - 1u8) as u8)) / 8u8) % 2u8 == 1u8) == (((a / 8u8) % 2u8 == 1u8) && (((a / 1u8) % 2u8 == 1u8) || ((a / 2u8) % 2u8 == 1u8) || ((a / 4u8) % 2u8 == 1u8)))) && ((((a & ((a - 1u8) as u8)) / 16u8) % 2u8 == 1u8) == (((a / 16u8) % 2u8 == 1u8) && (((a / 1u8) % 2u8 == 1u8) || ((a / 2u8) % 2u8 == 1u8) || ((a / 4u8) % 2u8 == 1u8) || ((a / 8u8) % 2u8 == 1u8)))) && ((((a & ((a - 1u8) as u8)) / 32u8) % 2u8 == 1u8) == (((a / 32u8) % 2u8 == 1u8) && (((a / 1u8) % 2u8 == 1u8) || ((a / 2u8) % 2u8 == 1u8) || ((a / 4u8) % 2u8 == 1u8) || ((a / 8u8) % 2u8 == 1u8) || ((a / 16u8) % 2u8 == 1u8)))) && ((((a & ((a - 1u8) as u8)) / 64u8) % 2u8 == 1u8) == (((a / 64u8) % 2u8 == 1u8) && (((a / 1u8) % 2u8 == 1u8) || ((a / 2u8) % 2u8 == 1u8) || ((a / 4u8) % 2u8 == 1u8) || ((a / 8u8) % 2u8 == 1u8) || ((a / 16u8) % 2u8 == 1u8) || ((a / 32u8) % 2u8 == 1u8)))) && ((((a & ((a - 1u8) as u8)) / 128u8) % 2u8 == 1u8) == (((a / 128u8) % 2u8 == 1u8) && (((a / 1u8) % 2u8 == 1u8) || ((a / 2u8) % 2u8 == 1u8) || ((a / 4u8) % 2u8 == 1u8) || ((a / 8u8) % 2u8 == 1u8) || ((a / 16u8) % 2u8 == 1u8) || ((a / 32u8) % 2u8 == 1u8) || ((a / 64u8) % 2u8 == 1u8))))) by (bit_vector)
            requires
                a != 0u8,
        ;
    }
}

/// The bits of a byte, written out by division.
pub proof fn lemma_byte_bits(x: u8)
    ensures
        bit_at(x, 1) == (x % 2 == 1),
        bit_at(x, 2) == ((x / 2) % 2 == 1),
        bit_at(x, 4) == ((x / 4) % 2 == 1),
        bit_at(x, 8) == ((x / 8) % 2 == 1),
        bit_at(x, 16) == ((x / 16) % 2 == 1),
        bit_at(x, 32) == ((x / 32) % 2 == 1),
        bit_at(x, 64) == ((x / 64) % 2 == 1),
        bit_at(x, 128) == ((x / 128) % 2 == 1),
{
    reveal(bit_at);
}

/// How the bitwise operators act on each direction of a set.
pub proof fn lemma_direction_set_ops(a: u8, b: u8)
    ensures
        forall|d: Direction| #[trigger]
            DirectionSet(a | b).has(d) == (DirectionSet(a).has(d) || DirectionSet(b).has(d)),
        forall|d: Direction| #[trigger]
            DirectionSet(a & b).has(d) == (DirectionSet(a).has(d) && DirectionSet(b).has(d)),
        forall|d: Direction| #[trigger]
            DirectionSet(a ^ b).has(d) == (DirectionSet(a).has(d) != DirectionSet(b).has(d)),
        forall|d: Direction| #[trigger] DirectionSet(!a).has(d) == !DirectionSet(a).has(d),
{
    lemma_byte_ops(a, b);
}

/// A set is empty exactly when its value is zero, and the position of its
/// lowest set bit is its least direction.
pub proof fn lemma_direction_set_least(a: u8)
    ensures
        a == 0 <==> (forall|d: Direction| !DirectionSet(a).has(d)),
        a != 0 ==> DirectionSet(a).has(DirectionSet(a).least()),
        forall|d: Direction| #[trigger]
            DirectionSet(a).has(d) ==> DirectionSet(a).least().index() <= d.index(),
        a != 0 ==> DirectionSet(a).least().index() == vstd::std_specs::bits::u8_trailing_zeros(a),
        a != 0 ==> (forall|d: Direction| #[trigger]
            DirectionSet(a & ((a - 1) as u8)).has(d) == (DirectionSet(a).has(d) && d
                != DirectionSet(a).least())),
{
    vstd::std_specs::bits::axiom_u8_trailing_zeros(a);
    lemma_byte_low(a);
    if a != 0 {
        let t = vstd::std_specs::bits::u8_trailing_zeros(a);
        let l = DirectionSet(a).least();
        assert(forall|j: u8| j < t ==> #[trigger] (a >> j) & 1u8 == 0u8);
        assert(t >= 1 ==> (a >> 0u8) & 1u8 == 0u8);
        assert(t >= 2 ==> (a >> 1u8) & 1u8 == 0u8);
        assert(t >= 3 ==> (a >> 2u8) & 1u8 == 0u8);
        assert(t >= 4 ==> (a >> 3u8) & 1u8 == 0u8);
        assert(t >= 5 ==> (a >> 4u8) & 1u8 == 0u8);
        assert(t >= 6 ==> (a >> 5u8) & 1u8 == 0u8);
        assert(t >= 7 ==> (a >> 6u8) & 1u8 == 0u8);
        assert(l.index() == t);
    } else {
        assert(forall|d: Direction| !DirectionSet(a).has(d));
    }
    if forall|d: Direction| !DirectionSet(a).has(d) {
        assert(!DirectionSet(a).has(Direction::RU));
        assert(!DirectionSet(a).has(Direction::R));
        assert(!DirectionSet(a).has(Direction::RD));
        assert(!DirectionSet(a).has(Direction::U));
        assert(!DirectionSet(a).has(Direction::D));
        assert(!DirectionSet(a).has(Direction::LU));
        assert(!DirectionSet(a).has(Direction::L));
        assert(!DirectionSet(a).has(Direction::LD));
    }
}

/// Taking directions away never makes the value of a set larger.
pub proof fn lemma_direction_set_sub(a: u8, b: u8)
    ensures
        (a & !b) <= a,
{
    assert((a & !b) <= a) by (bit_vector);
}

/// Membership in a set of one direction, and in the empty and the full set.
pub proof fn lemma_direction_set_single(dir: Direction)
    ensures
        forall|d: Direction| #[trigger] DirectionSet::single(dir).has(d) == (d == dir),
        forall|d: Direction| !(#[trigger] DirectionSet(0).has(d)),
        forall|d: Direction| #[trigger] DirectionSet(0xFF).has(d),
{
    reveal(bit_at);
    assert(bit_at(0xFFu8, 1u8));
    assert(!bit_at(0u8, 1u8));
    assert(bit_at(0xFFu8, 2u8));
    assert(!bit_at(0u8, 2u8));
    assert(bit_at(0xFFu8, 4u8));
    assert(!bit_at(0u8, 4u8));
    assert(bit_at(0xFFu8, 8u8));
    assert(!bit_at(0u8, 8u8));
    assert(bit_at(0xFFu8, 16u8));
    assert(!bit_at(0u8, 16u8));
    assert(bit_at(0xFFu8, 32u8));
    assert(!bit_at(0u8, 32u8));
    assert(bit_at(0xFFu8, 64u8));
    assert(!bit_at(0u8, 64u8));
    assert(bit_at(0xFFu8, 128u8));
    assert(!bit_at(0u8, 128u8));
    assert(bit_at(1u8, 1u8) == true);
    assert(bit_at(1u8, 2u8) == false);
    assert(bit_at(1u8, 4u8) == false);
    assert(bit_at(1u8, 8u8) == false);
    assert(bit_at(1u8, 16u8) == false);
    assert(bit_at(1u8, 32u8) == false);
    assert(bit_at(1u8, 64u8) == false);
    assert(bit_at(1u8, 128u8) == false);
    assert(bit_at(2u8, 1u8) == false);
    assert(bit_at(2u8, 2u8) == true);
    assert(bit_at(2u8, 4u8) == false);
    assert(bit_at(2u8, 8u8) == false);
    assert(bit_at(2u8, 16u8) == false);
    assert(bit_at(2u8, 32u8) == false);
    assert(bit_at(2u8, 64u8) == false);
    assert(bit_at(2u8, 128u8) == false);
    assert(bit_at(4u8, 1u8) == false);
    assert(bit_at(4u8, 2u8) == false);
    assert(bit_at(4u8, 4u8) == true);
    assert(bit_at(4u8, 8u8) == false);
    assert(bit_at(4u8, 16u8) == false);
    assert(bit_at(4u8, 32u8) == false);
    assert(bit_at(4u8, 64u8) == false);
    assert(bit_at(4u8, 128u8) == false);
    assert(bit_at(8u8, 1u8) == false);
    assert(bit_at(8u8, 2u8) == false);
    assert(bit_at(8u8, 4u8) == false);
    assert(bit_at(8u8, 8u8) == true);
    assert(bit_at(8u8, 16u8) == false);
    assert(bit_at(8u8, 32u8) == false);
    assert(bit_at(8u8, 64u8) == false);
    assert(bit_at(8u8, 128u8) == false);
    assert(bit_at(16u8, 1u8) == false);
    assert(bit_at(16u8, 2u8) == false);
    assert(bit_at(16u8, 4u8) == false);
    assert(bit_at(16u8, 8u8) == false);
    assert(bit_at(16u8, 16u8) == true);
    assert(bit_at(16u8, 32u8) == false);
    assert(bit_at(16u8, 64u8) == false);
    assert(bit_at(16u8, 128u8) == false);
    assert(bit_at(32u8, 1u8) == false);
    assert(bit_at(32u8, 2u8) == false);
    assert(bit_at(32u8, 4u8) == false);
    assert(bit_at(32u8, 8u8) == false);
    assert(bit_at(32u8, 16u8) == false);
    assert(bit_at(32u8, 32u8) == true);
    assert(bit_at(32u8, 64u8) == false);
    assert(bit_at(32u8, 128u8) == false);
    assert(bit_at(64u8, 1u8) == false);
    assert(bit_at(64u8, 2u8) == false);
    assert(bit_at(64u8, 4u8) == false);
    assert(bit_at(64u8, 8u8) == false);
    assert(bit_at(64u8, 16u8) == false);
    assert(bit_at(64u8, 32u8) == false);
    assert(bit_at(64u8, 64u8) == true);
    assert(bit_at(64u8, 128u8) == false);
    assert(bit_at(128u8, 1u8) == false);
    assert(bit_at(128u8, 2u8) == false);
    assert(bit_at(128u8, 4u8) == false);
    assert(bit_at(128u8, 8u8) == false);
    assert(bit_at(128u8, 16u8) == false);
    assert(bit_at(128u8, 32u8) == false);
    assert(bit_at(128u8, 64u8) == false);
    assert(bit_at(128u8, 128u8) == true);
    assert forall|d: Direction| #[trigger] DirectionSet::single(dir).has(d) == (d == dir) by {
        match dir {
            Direction::RU => {},
            Direction::R => {},
            Direction::RD => {},
            Direction::U => {},
            Direction::D => {},
            Direction::LU => {},
            Direction::L => {},
            Direction::LD => {},
        }
    }
}

impl DirectionSet {
    /// Whether the set holds `d`.
    pub open spec fn has(self, d: Direction) -> bool {
        bit_at(self.0, d.bit() as u8)
    }

    /// The set that holds only `d`.
    pub open spec fn single(d: Direction) -> DirectionSet {
        DirectionSet(d.bit() as u8)
    }

    /// The least direction of a set that is not empty.
    pub open spec fn least(self) -> Direction {
        if self.has(Direction::RU) {
            Direction::RU
        } else if self.has(Direction::R) {
            Direction::R
        } else if self.has(Direction::RD) {
            Direction::RD
        } else if self.has(Direction::U) {
            Direction::U
        } else if self.has(Direction::D) {
            Direction::D
        } else if self.has(Direction::LU) {
            Direction::LU
        } else if self.has(Direction::L) {
            Direction::L
        } else {
            Direction::LD
        }
    }

    /// The direction in which `dst` is seen from `src` along a file, a rank
    /// or a diagonal, if there is one.
    pub open spec fn between(src: Square, dst: Square) -> Option<Direction> {
        let dc = dst.c() - src.c();
        let dr = dst.r() - src.r();
        if dc == 0 && dr == 0 {
            None
        } else if dc == 0 {
            Some(if dr < 0 { Direction::U } else { Direction::D })
        } else if dr == 0 {
            Some(if dc < 0 { Direction::R } else { Direction::L })
        } else if dc == dr {
            Some(if dc < 0 { Direction::RU } else { Direction::LD })
        } else if dc == -dr {
            Some(if dc < 0 { Direction::RD } else { Direction::LU })
        } else {
            None
        }
    }

    /// The set that holds only `RU`.
    #[allow(non_snake_case)]
    pub fn RU() -> (r: DirectionSet)
        ensures
            r == DirectionSet::single(Direction::RU),
    {
        DirectionSet(1)
    }

    /// The set that holds only `R`.
    #[allow(non_snake_case)]
    pub fn R() -> (r: DirectionSet)
        ensures
            r == DirectionSet::single(Direction::R),
    {
        DirectionSet(2)
    }

    /// The set that holds only `RD`.
    #[allow(non_snake_case)]
    pub fn RD() -> (r: DirectionSet)
        ensures
            r == DirectionSet::single(Direction::RD),
    {
        DirectionSet(4)
    }

    /// The set that holds only `U`.
    #[allow(non_snake_case)]
    pub fn U() -> (r: DirectionSet)
        ensures
            r == DirectionSet::single(Direction::U),
    {
        DirectionSet(8)
    }

    /// The set that holds only `D`.
    #[allow(non_snake_case)]
    pub fn D() -> (r: DirectionSet)
        ensures
            r == DirectionSet::single(Direction::D),
    {
        DirectionSet(16)
    }

    /// The set that holds only `LU`.
    #[allow(non_snake_case)]
    pub fn LU() -> (r: DirectionSet)
        ensures
            r == DirectionSet::single(Direction::LU),
    {
        DirectionSet(32)
    }

    /// The set that holds only `L`.
    #[allow(non_snake_case)]
    pub fn L() -> (r: DirectionSet)
        ensures
            r == DirectionSet::single(Direction::L),
    {
        DirectionSet(64)
    }

    /// The set that holds only `LD`.
    #[allow(non_snake_case)]
    pub fn LD() -> (r: DirectionSet)
        ensures
            r == DirectionSet::single(Direction::LD),
    {
        DirectionSet(128)
    }

    /// The empty set.
    pub fn empty() -> (r: DirectionSet)
        ensures
            r.0 == 0,
            forall|d: Direction| !r.has(d),
    {
        proof {
            lemma_direction_set_single(Direction::RU);
        }
        DirectionSet(0)
    }

    /// The set of all eight directions.
    pub fn all() -> (r: DirectionSet)
        ensures
            r.0 == 0xFF,
            forall|d: Direction| r.has(d),
    {
        proof {
            lemma_direction_set_single(Direction::RU);
        }
        DirectionSet(0xFF)
    }

    /// The set with the given bits.
    pub fn from_inner(inner: u8) -> (r: DirectionSet)
        ensures
            r.0 == inner,
    {
        DirectionSet(inner)
    }

    /// The set that holds only `dir`.
    pub fn from_direction(dir: Direction) -> (r: DirectionSet)
        ensures
            r == DirectionSet::single(dir),
            forall|d: Direction| r.has(d) == (d == dir),
    {
        let r: DirectionSet = match dir {
            Direction::RU => DirectionSet(1),
            Direction::R => DirectionSet(2),
            Direction::RD => DirectionSet(4),
            Direction::U => DirectionSet(8),
            Direction::D => DirectionSet(16),
            Direction::LU => DirectionSet(32),
            Direction::L => DirectionSet(64),
            Direction::LD => DirectionSet(128),
        };
        proof {
            lemma_direction_set_single(dir);
            assert(r == DirectionSet::single(dir));
            assert forall|d: Direction| r.has(d) == (d == dir) by {
                assert(DirectionSet::single(dir).has(d) == (d == dir));
            }
        }
        r
    }

    /// The direction in which `dst` is seen from `src`, as a set of at most
    /// one direction; empty when the squares are equal or not aligned.
    pub fn from_squares(src: Square, dst: Square) -> (r: DirectionSet)
        requires
            src.on_board(),
            dst.on_board(),
        ensures
            r == (match DirectionSet::between(src, dst) {
                Some(d) => DirectionSet::single(d),
                None => DirectionSet(0),
            }),
    {
        let dc: i32 = dst.0 / 9 - src.0 / 9;
        let dr: i32 = dst.0 % 9 - src.0 % 9;
        if dc == 0 && dr == 0 {
            DirectionSet(0)
        } else if dc == 0 {
            if dr < 0 { DirectionSet(8) } else { DirectionSet(16) }
        } else if dr == 0 {
            if dc < 0 { DirectionSet(2) } else { DirectionSet(64) }
        } else if dc == dr {
            if dc < 0 { DirectionSet(1) } else { DirectionSet(128) }
        } else if dc == -dr {
            if dc < 0 { DirectionSet(4) } else { DirectionSet(32) }
        } else {
            DirectionSet(0)
        }
    }

    /// Whether the set is empty.
    pub fn is_empty(self) -> (r: bool)
        ensures
            r == (self.0 == 0),
            r == (forall|d: Direction| !self.has(d)),
    {
        proof {
            lemma_direction_set_least(self.0);
        }
        self.0 == 0
    }

    /// Whether the two sets share no direction.
    pub fn is_disjoint(self, other: DirectionSet) -> (r: bool)
        ensures
            r == (forall|d: Direction| !(self.has(d) && other.has(d))),
    {
        proof {
            lemma_direction_set_ops(self.0, other.0);
            lemma_direction_set_least(self.0 & other.0);
            assert forall|d: Direction| !(self.has(d) && other.has(d)) == !(#[trigger] DirectionSet(
                self.0 & other.0,
            ).has(d)) by {}
        }
        self.and(other).is_empty()
    }

    /// Whether every direction of `self` is in `other`.
    pub fn is_subset(self, other: DirectionSet) -> (r: bool)
        ensures
            r == (forall|d: Direction| self.has(d) ==> other.has(d)),
    {
        proof {
            lemma_direction_set_ops(self.0, other.0);
            lemma_direction_set_ops(self.0 & other.0, self.0);
            lemma_direction_set_least((self.0 & other.0) ^ self.0);
            let x: u8 = self.0;
            let y: u8 = other.0;
            assert(((x & y) == x) == (((x & y) ^ x) == 0u8)) by (bit_vector);
            assert forall|d: Direction| (self.has(d) ==> other.has(d)) == !(#[trigger] DirectionSet(
                (self.0 & other.0) ^ self.0,
            ).has(d)) by {}
        }
        self.and(other).0 == self.0
    }

    /// Whether every direction of `other` is in `self`.
    pub fn is_superset(self, other: DirectionSet) -> (r: bool)
        ensures
            r == (forall|d: Direction| other.has(d) ==> self.has(d)),
    {
        other.is_subset(self)
    }

    /// Whether the set holds `dir`.
    pub fn contains(self, dir: Direction) -> (r: bool)
        ensures
            r == self.has(dir),
    {
        proof {
            lemma_direction_set_ops(self.0, DirectionSet::single(dir).0);
            lemma_direction_set_least(self.0 & DirectionSet::single(dir).0);
            lemma_direction_set_single(dir);
            let m = DirectionSet(self.0 & DirectionSet::single(dir).0);
            assert(forall|d: Direction| #[trigger] m.has(d) == (self.has(d) && d == dir));
            if self.has(dir) {
                assert(m.has(dir));
            }
        }
        (self.0 & DirectionSet::from_direction(dir).0) != 0
    }

    /// The least direction of the set, which must not be empty.
    pub fn get_least(self) -> (r: Direction)
        requires
            self.0 != 0,
        ensures
            r == self.least(),
            self.has(r),
            forall|d: Direction| self.has(d) ==> r.index() <= d.index(),
    {
        proof {
            lemma_direction_set_least(self.0);
        }
        let inner: u32 = lsb_u8(self.0);
        Direction::from_inner(inner)
    }

    /// Removes the least direction of the set, which must not be empty, and
    /// returns it.
    pub fn pop_least(&mut self) -> (r: Direction)
        requires
            old(self).0 != 0,
        ensures
            r == old(self).least(),
            old(self).has(r),
            forall|d: Direction| old(self).has(d) ==> r.index() <= d.index(),
            forall|d: Direction| final(self).has(d) == (old(self).has(d) && d != r),
            final(self).0 < old(self).0,
    {
        proof {
            lemma_direction_set_least(self.0);
        }
        let inner: u32 = crate::bitop::pop_lsb_u8(&mut self.0);
        Direction::from_inner(inner)
    }

    /// Calls `f` on each direction of the set, in ascending order.  `f`
    /// must accept every direction of the set; afterwards what `f` ensures
    /// holds of every direction of the set.
    pub fn for_each<F: Fn(Direction)>(self, f: F)
        requires
            forall|d: Direction| self.has(d) ==> call_requires(f, (d,)),
        ensures
            forall|d: Direction| self.has(d) ==> call_ensures(f, (d,), ()),
    {
        let dirs: Vec<Direction> = self.to_vec();
        let mut i: usize = 0;
        while i < dirs.len()
            invariant
                i <= dirs@.len(),
                forall|d: Direction| self.has(d) == dirs@.contains(d),
                forall|d: Direction| self.has(d) ==> call_requires(f, (d,)),
                forall|k: int| 0 <= k < i ==> call_ensures(f, (#[trigger] dirs@[k],), ()),
            decreases dirs@.len() - i,
        {
            assert(dirs@.contains(dirs@[i as int]));
            assert(self.has(dirs@[i as int]));
            assert(call_requires(f, (dirs@[i as int],)));
            f(dirs[i]);
            i += 1;
        }
        proof {
            assert forall|d: Direction| self.has(d) implies call_ensures(f, (d,), ()) by {
                let k = choose|k: int| 0 <= k < dirs@.len() && dirs@[k] == d;
                assert(call_ensures(f, (dirs@[k],), ()));
            }
        }
    }

    /// The directions of the set in ascending order.
    pub fn to_vec(self) -> (r: Vec<Direction>)
        ensures
            forall|d: Direction| self.has(d) == r@.contains(d),
            forall|i: int, j: int| 0 <= i < j < r@.len() ==> r@[i].index() < r@[j].index(),
    {
        let mut v: Vec<Direction> = Vec::new();
        let mut rest: DirectionSet = self;
        while rest.0 != 0
            invariant
                forall|d: Direction| self.has(d) == (v@.contains(d) || rest.has(d)),
                forall|i: int, j: int| 0 <= i < j < v@.len() ==> v@[i].index() < v@[j].index(),
                forall|i: int, d: Direction| 0 <= i < v@.len() && rest.has(d) ==> v@[i].index() < d.index(),
            decreases rest.0,
        {
            let ghost before = rest;
            let ghost vb = v@;
            let d0: Direction = rest.pop_least();
            v.push(d0);
            proof {
                assert(v@ == vb.push(d0));
                assert forall|d: Direction| self.has(d) == (v@.contains(d) || rest.has(d)) by {
                    if vb.contains(d) {
                        let k = choose|k: int| 0 <= k < vb.len() && vb[k] == d;
                        assert(v@[k] == d);
                    }
                    if d == d0 {
                        assert(v@[vb.len() as int] == d);
                    }
                    if v@.contains(d) {
                        let k = choose|k: int| 0 <= k < v@.len() && v@[k] == d;
                        if k < vb.len() {
                            assert(vb[k] == d);
                        }
                    }
                }
                assert forall|i: int, d: Direction| 0 <= i < v@.len() && rest.has(d) implies v@[i].index() < d.index() by {
                    assert(before.has(d));
                    assert(d != d0);
                }
            }
        }
        proof {
            lemma_direction_set_least(rest.0);
        }
        v
    }

    /// The complement of the set.
    pub fn not(self) -> (r: DirectionSet)
        ensures
            r.0 == !self.0,
            forall|d: Direction| r.has(d) == !self.has(d),
    {
        proof {
            lemma_direction_set_ops(self.0, self.0);
        }
        DirectionSet(!self.0)
    }

    /// The intersection of the two sets.
    pub fn and(self, rhs: DirectionSet) -> (r: DirectionSet)
        ensures
            r.0 == self.0 & rhs.0,
            forall|d: Direction| r.has(d) == (self.has(d) && rhs.has(d)),
    {
        proof {
            lemma_direction_set_ops(self.0, rhs.0);
        }
        DirectionSet(self.0 & rhs.0)
    }

    /// The union of the two sets.
    pub fn or(self, rhs: DirectionSet) -> (r: DirectionSet)
        ensures
            r.0 == self.0 | rhs.0,
            forall|d: Direction| r.has(d) == (self.has(d) || rhs.has(d)),
    {
        proof {
            lemma_direction_set_ops(self.0, rhs.0);
        }
        DirectionSet(self.0 | rhs.0)
    }

    /// The symmetric difference of the two sets.
    pub fn xor(self, rhs: DirectionSet) -> (r: DirectionSet)
        ensures
            r.0 == self.0 ^ rhs.0,
            forall|d: Direction| r.has(d) == (self.has(d) != rhs.has(d)),
    {
        proof {
            lemma_direction_set_ops(self.0, rhs.0);
        }
        DirectionSet(self.0 ^ rhs.0)
    }

    /// The bits of the set.
    pub fn inner(self) -> (r: u8)
        ensures
            r == self.0,
    {
        self.0
    }
}

} // verus!
