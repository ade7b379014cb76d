//! Sets of squares packed into two words of 64 bits.
//!
//! Bit `i` of the low word stands for square `i` (files 1 to 7, squares 0 to
//! 62; bit 63 is not used), and bit `i` of the high word for square
//! `63 + i` (files 8 and 9, squares 63 to 80).

use vstd::prelude::*;
use crate::shogi::Square;
use crate::bitop::{lsb_u64, pop_lsb_u64};

verus! {

/// Whether bit `i` of `x` is set.
pub open spec fn bit64(x: u64, i: int) -> bool {
    0 <= i < 64 && (x >> (i as u64)) & 1 == 1
}

/// The value with the bytes of `x` in reverse order.
pub open spec fn bswap64(x: u64) -> u64 {
    ((x & 0xFF) << 56) | ((x & 0xFF00) << 40) | ((x & 0xFF_0000) << 24) | ((x & 0xFF00_0000) << 8)
        | ((x >> 8) & 0xFF00_0000) | ((x >> 24) & 0xFF_0000) | ((x >> 40) & 0xFF00) | ((x >> 56)
        & 0xFF)
}

/// The number of set bits of `x`.
pub open spec fn popcount64(x: u64) -> nat
    decreases x,
{
    if x == 0 {
        0
    } else {
        let y: u64 = x & ((x - 1) as u64);
        if y < x {
            1 + popcount64(y)
        } else {
            0
        }
    }
}

/// How the bitwise operators act on bit `k` of a word.
pub proof fn lemma_bit64_ops_at(a: u64, b: u64, k: u64)
    requires
        k < 64,
    ensures
        (((a | b) >> k) & 1 == 1) == (((a >> k) & 1 == 1) || ((b >> k) & 1 == 1)),
        (((a & b) >> k) & 1 == 1) == (((a >> k) & 1 == 1) && ((b >> k) & 1 == 1)),
        (((a ^ b) >> k) & 1 == 1) == (((a >> k) & 1 == 1) != ((b >> k) & 1 == 1)),
        (((!a & b) >> k) & 1 == 1) == (!((a >> k) & 1 == 1) && ((b >> k) & 1 == 1)),
        k < 63 ==> (((a >> 1) >> k) & 1 == 1) == ((a >> ((k + 1) as u64)) & 1 == 1),
        k == 63 ==> ((a >> 1) >> k) & 1 == 0,
        k > 0 ==> (((a << 1) >> k) & 1 == 1) == ((a >> ((k - 1) as u64)) & 1 == 1),
        k == 0 ==> ((a << 1) >> k) & 1 == 0,
        (((1u64 << a) >> k) & 1 == 1) == (a == k) || a >= 64,
        (0u64 >> k) & 1 == 0,
{
    let k1: u64 = if k < 63 { (k + 1) as u64 } else { 0 };
    let k0: u64 = if k > 0 { (k - 1) as u64 } else { 0 };
    assert((((a | b) >> k) & 1 == 1) == (((a >> k) & 1 == 1) || ((b >> k) & 1 == 1)) && (((a & b)
        >> k) & 1 == 1) == (((a >> k) & 1 == 1) && ((b >> k) & 1 == 1)) && (((a ^ b) >> k) & 1 == 1)
        == (((a >> k) & 1 == 1) != ((b >> k) & 1 == 1)) && (((!a & b) >> k) & 1 == 1) == (!((a
        >> k) & 1 == 1) && ((b >> k) & 1 == 1)) && (k < 63 && k1 == k + 1 ==> (((a >> 1) >> k) & 1
        == 1) == ((a >> k1) & 1 == 1)) && (k == 63 ==> ((a >> 1) >> k) & 1 == 0) && (k > 0 && k0
        == k - 1 ==> (((a << 1) >> k) & 1 == 1) == ((a >> k0) & 1 == 1)) && (k == 0 ==> ((a << 1)
        >> k) & 1 == 0) && (a < 64 ==> ((((1u64 << a) >> k) & 1 == 1) == (a == k))) && ((0u64 >> k)
        & 1 == 0)) by (bit_vector)
        requires
            k < 64,
    ;
}

/// How the bitwise operators act on each bit of a word.
pub proof fn lemma_bit64_ops(a: u64, b: u64)
    ensures
        forall|i: int| #[trigger] bit64(a | b, i) == (bit64(a, i) || bit64(b, i)),
        forall|i: int| #[trigger] bit64(a & b, i) == (bit64(a, i) && bit64(b, i)),
        forall|i: int| #[trigger] bit64(a ^ b, i) == (bit64(a, i) != bit64(b, i)),
        forall|i: int| #[trigger] bit64(!a & b, i) == (!bit64(a, i) && bit64(b, i)),
        forall|i: int| #[trigger] bit64(a >> 1, i) == (0 <= i < 63 && bit64(a, i + 1)),
        forall|i: int| #[trigger] bit64(a << 1, i) == (0 < i < 64 && bit64(a, i - 1)),
{
    assert forall|i: int| #[trigger] bit64(a | b, i) == (bit64(a, i) || bit64(b, i)) by {
        if 0 <= i < 64 {
            lemma_bit64_ops_at(a, b, i as u64);
        }
    }
    assert forall|i: int| #[trigger] bit64(a & b, i) == (bit64(a, i) && bit64(b, i)) by {
        if 0 <= i < 64 {
            lemma_bit64_ops_at(a, b, i as u64);
        }
    }
    assert forall|i: int| #[trigger] bit64(a ^ b, i) == (bit64(a, i) != bit64(b, i)) by {
        if 0 <= i < 64 {
            lemma_bit64_ops_at(a, b, i as u64);
        }
    }
    assert forall|i: int| #[trigger] bit64(!a & b, i) == (!bit64(a, i) && bit64(b, i)) by {
        if 0 <= i < 64 {
            lemma_bit64_ops_at(a, b, i as u64);
        }
    }
    assert forall|i: int| #[trigger] bit64(a >> 1, i) == (0 <= i < 63 && bit64(a, i + 1)) by {
        if 0 <= i < 64 {
            lemma_bit64_ops_at(a, b, i as u64);
            let k: u64 = i as u64;
            if i < 63 {
                assert((k + 1) as u64 == (i + 1) as u64);
                assert(bit64(a, i + 1) == ((a >> ((k + 1) as u64)) & 1 == 1));
                assert(bit64(a >> 1, i) == (((a >> 1) >> k) & 1 == 1));
            } else {
                assert(bit64(a >> 1, i) == (((a >> 1) >> k) & 1 == 1));
            }
        }
    }
    assert forall|i: int| #[trigger] bit64(a << 1, i) == (0 < i < 64 && bit64(a, i - 1)) by {
        if 0 <= i < 64 {
            lemma_bit64_ops_at(a, b, i as u64);
            let k: u64 = i as u64;
            if i > 0 {
                assert(bit64(a, i - 1) == ((a >> ((k - 1) as u64)) & 1 == 1));
            }
            assert(bit64(a << 1, i) == (((a << 1) >> k) & 1 == 1));
        }
    }
}

/// The bits of a word with a single set bit, and of zero.
pub proof fn lemma_bit64_single(k: u64)
    requires
        k < 64,
    ensures
        forall|i: int| #[trigger] bit64(1u64 << k, i) == (i == k),
        forall|i: int| !(#[trigger] bit64(0, i)),
        (1u64 << k) != 0,
        k < 63 ==> (1u64 << k) < 0x8000_0000_0000_0000,
        k < 18 ==> (1u64 << k) < 0x40000,
{
    assert forall|i: int| #[trigger] bit64(1u64 << k, i) == (i == k) by {
        if 0 <= i < 64 {
            lemma_bit64_ops_at(k, 0, i as u64);
        }
    }
    assert forall|i: int| !(#[trigger] bit64(0, i)) by {
        if 0 <= i < 64 {
            lemma_bit64_ops_at(k, 0, i as u64);
        }
    }
    assert((1u64 << k) != 0 && (k < 63 ==> (1u64 << k) < 0x8000_0000_0000_0000) && (k < 18 ==> (1u64
        << k) < 0x40000)) by (bit_vector)
        requires
            k < 64,
    ;
}

/// The lowest set bit of a word that is not zero, and what clearing it
/// leaves.
pub proof fn lemma_bit64_low(x: u64)
    requires
        x != 0,
    ensures
        ({
            let t = vstd::std_specs::bits::u64_trailing_zeros(x) as int;
            &&& 0 <= t < 64
            &&& bit64(x, t)
            &&& forall|i: int| 0 <= i < t ==> !(#[trigger] bit64(x, i))
            &&& forall|i: int| #[trigger]
                bit64(x & ((x - 1) as u64), i) == (bit64(x, i) && i != t)
            &&& (x < 0x8000_0000_0000_0000 ==> t < 63)
            &&& (x < 0x40000 ==> t < 18)
        }),
{
    vstd::std_specs::bits::axiom_u64_trailing_zeros(x);
    let t: u64 = vstd::std_specs::bits::u64_trailing_zeros(x) as u64;
    let y: u64 = x & ((x - 1) as u64);
    assert forall|i: int| 0 <= i < t implies !(#[trigger] bit64(x, i)) by {
        let j: u64 = i as u64;
        assert((x >> j) & 1u64 == 0u64);
    }
    let low: u64 = x << ((64 - t) as u64);
    assert(low == 0);
    assert forall|i: int| 0 <= i < 64 implies #[trigger] bit64(y, i) == (bit64(x, i) && i != t) by {
        let j: u64 = i as u64;
        let s: u64 = (64 - t) as u64;
        assert((((x & ((x - 1) as u64)) >> j) & 1 == 1) == (((x >> j) & 1 == 1) && j != t))
            by (bit_vector)
            requires
                t < 64,
                j < 64,
                s == 64 - t,
                (x >> t) & 1 == 1,
                x << s == 0,
        ;
    }
    assert((x < 0x8000_0000_0000_0000 ==> t < 63) && (x < 0x40000 ==> t < 18)) by (bit_vector)
        requires
            t < 64,
            (x >> t) & 1 == 1,
    ;
}

/// Bits that a valid pair of words does not hold.
pub proof fn lemma_bit64_high(lo: u64, hi: u64)
    requires
        lo < 0x8000_0000_0000_0000,
        hi < 0x40000,
    ensures
        !bit64(lo, 63),
        forall|i: int| 18 <= i ==> !(#[trigger] bit64(hi, i)),
{
    assert((lo >> 63u64) & 1 == 0) by (bit_vector)
        requires
            lo < 0x8000_0000_0000_0000,
    ;
    assert forall|i: int| 18 <= i implies !(#[trigger] bit64(hi, i)) by {
        if i < 64 {
            let k: u64 = i as u64;
            assert((hi >> k) & 1 == 0) by (bit_vector)
                requires
                    hi < 0x40000,
                    18 <= k < 64,
            ;
        }
    }
}

/// Bounds that the bitwise operators keep.
pub proof fn lemma_bit64_bounds(a: u64, b: u64, m: u64)
    requires
        m == 0x8000_0000_0000_0000 || m == 0x40000,
        b < m,
    ensures
        a & b < m,
        !a & b < m,
        a < m ==> (a | b) < m && (a ^ b) < m,
        b >> 1 < m,
{
    assert((a & b) < m && (!a & b) < m && (a < m ==> (a | b) < m && (a ^ b) < m) && (b >> 1) < m)
        by (bit_vector)
        requires
            m == 0x8000_0000_0000_0000 || m == 0x40000,
            b < m,
    ;
}

/// A set of squares.
#[derive(Clone, Copy, Debug, PartialEq, Eq, Structural, Hash)]
pub struct Bitboard {
    pub lo: u64,
    pub hi: u64,
}

impl Bitboard {
    /// Whether the set holds the square with number `sq`.
    pub open spec fn has(self, sq: int) -> bool {
        if sq < 63 {
            bit64(self.lo, sq)
        } else {
            sq < 81 && bit64(self.hi, sq - 63)
        }
    }

    /// Whether no bit outside the board is set.
    pub open spec fn spec_is_valid(self) -> bool {
        self.lo < 0x8000_0000_0000_0000 && self.hi < 0x40000
    }

    /// The least square of a set that is not empty.
    pub open spec fn least(self) -> int {
        if self.lo != 0 {
            vstd::std_specs::bits::u64_trailing_zeros(self.lo) as int
        } else {
            63 + vstd::std_specs::bits::u64_trailing_zeros(self.hi)
        }
    }

    /// The set that holds only the on-board square `sq`.
    pub open spec fn single(sq: Square) -> Bitboard {
        if sq.0 < 63 {
            Bitboard { lo: 1u64 << (sq.0 as u64), hi: 0 }
        } else {
            Bitboard { lo: 0, hi: 1u64 << ((sq.0 - 63) as u64) }
        }
    }

    /// The empty set.
    pub fn zero() -> (r: Bitboard)
        ensures
            r.lo == 0,
            r.hi == 0,
            r.spec_is_valid(),
            forall|sq: int| !r.has(sq),
    {
        proof {
            lemma_bit64_single(0);
        }
        Bitboard { lo: 0, hi: 0 }
    }

    /// The set of all 81 squares.
    pub fn all() -> (r: Bitboard)
        ensures
            r.lo == 0x7FFF_FFFF_FFFF_FFFF,
            r.hi == 0x3FFFF,
            r.spec_is_valid(),
            forall|sq: int| r.has(sq) == (0 <= sq < 81),
    {
        proof {
            assert forall|sq: int| (Bitboard { lo: 0x7FFF_FFFF_FFFF_FFFF, hi: 0x3FFFF }).has(sq)
                == (0 <= sq < 81) by {
                if 0 <= sq < 81 {
                    let k: u64 = if sq < 63 { sq as u64 } else { (sq - 63) as u64 };
                    assert((k < 63 ==> (0x7FFF_FFFF_FFFF_FFFFu64 >> k) & 1 == 1) && (k < 18 ==> (
                    0x3FFFFu64 >> k) & 1 == 1)) by (bit_vector);
                }
            }
        }
        Bitboard { lo: 0x7FFF_FFFF_FFFF_FFFF, hi: 0x3FFFF }
    }

    /// The set with the given low and high word.
    pub fn from_parts(lo: u64, hi: u64) -> (r: Bitboard)
        ensures
            r.lo == lo,
            r.hi == hi,
    {
        Bitboard { lo, hi }
    }

    /// The set that holds only the on-board square `sq`.
    pub fn from_square(sq: Square) -> (r: Bitboard)
        requires
            sq.on_board(),
        ensures
            r == Bitboard::single(sq),
            r.spec_is_valid(),
            forall|i: int| r.has(i) == (i == sq.0),
    {
        if sq.0 < 63 {
            proof {
                lemma_bit64_single(sq.0 as u64);
            }
            Bitboard { lo: 1u64 << (sq.0 as u64), hi: 0 }
        } else {
            proof {
                lemma_bit64_single((sq.0 - 63) as u64);
            }
            Bitboard { lo: 0, hi: 1u64 << ((sq.0 - 63) as u64) }
        }
    }

    /// Whether no bit outside the board is set.
    #[verifier::when_used_as_spec(spec_is_valid)]
    pub fn is_valid(self) -> (r: bool)
        ensures
            r == self.spec_is_valid(),
    {
        self.lo < 0x8000_0000_0000_0000 && self.hi < 0x40000
    }

    /// The low word.
    pub fn part0(self) -> (r: u64)
        ensures
            r == self.lo,
    {
        self.lo
    }

    /// The high word.
    pub fn part1(self) -> (r: u64)
        ensures
            r == self.hi,
    {
        self.hi
    }

    /// The low word for `i == 0`, the high word for `i == 1`.
    pub fn part(self, i: u32) -> (r: u64)
        requires
            i == 0 || i == 1,
        ensures
            r == (if i == 0 { self.lo } else { self.hi }),
    {
        if i == 0 {
            self.lo
        } else {
            self.hi
        }
    }

    /// Replaces the low word.
    pub fn set_part0(&mut self, lo: u64)
        ensures
            final(self).lo == lo,
            final(self).hi == old(self).hi,
    {
        self.lo = lo;
    }

    /// Replaces the high word.
    pub fn set_part1(&mut self, hi: u64)
        ensures
            final(self).lo == old(self).lo,
            final(self).hi == hi,
    {
        self.hi = hi;
    }

    /// Replaces both words.
    pub fn set_parts(&mut self, lo: u64, hi: u64)
        ensures
            final(self).lo == lo,
            final(self).hi == hi,
    {
        self.lo = lo;
        self.hi = hi;
    }

    /// Whether every bit is zero, those outside the board too.
    pub fn is_zero(self) -> (r: bool)
        ensures
            r == (self.lo == 0 && self.hi == 0),
            self.spec_is_valid() ==> r == (forall|sq: int| !self.has(sq)),
    {
        proof {
            if self.spec_is_valid() {
                lemma_bit64_single(0);
                if self.lo != 0 {
                    lemma_bit64_low(self.lo);
                    assert(self.has(vstd::std_specs::bits::u64_trailing_zeros(self.lo) as int));
                } else if self.hi != 0 {
                    lemma_bit64_low(self.hi);
                    assert(self.has(63 + vstd::std_specs::bits::u64_trailing_zeros(self.hi)));
                }
            }
        }
        self.lo == 0 && self.hi == 0
    }

    /// Whether the two sets share a bit.
    pub fn test(self, other: Bitboard) -> (r: bool)
        ensures
            r == ((self.lo & other.lo) != 0 || (self.hi & other.hi) != 0),
            self.spec_is_valid() ==> r == (exists|sq: int| self.has(sq) && other.has(sq)),
    {
        let m: Bitboard = self.and(other);
        let z: bool = m.is_zero();
        proof {
            if self.spec_is_valid() {
                lemma_bit64_bounds(other.lo, self.lo, 0x8000_0000_0000_0000);
                lemma_bit64_bounds(other.hi, self.hi, 0x40000);
                let (a, b, c, d) = (self.lo, other.lo, self.hi, other.hi);
                assert(a & b == b & a && c & d == d & c) by (bit_vector);
                if !z {
                    let w = choose|sq: int| m.has(sq);
                    assert(self.has(w) && other.has(w));
                }
            }
        }
        !z
    }

    /// Whether the set holds the on-board square `sq`.
    pub fn test_square(self, sq: Square) -> (r: bool)
        requires
            sq.on_board(),
        ensures
            r == self.has(sq.0 as int),
    {
        let one: Bitboard = Bitboard::from_square(sq);
        let m: Bitboard = self.and(one);
        proof {
            lemma_bit64_single(0);
            assert(m.has(sq.0 as int) == self.has(sq.0 as int));
            if m.lo != 0 {
                lemma_bit64_low(m.lo);
                let t = vstd::std_specs::bits::u64_trailing_zeros(m.lo) as int;
                assert(m.has(t));
            }
            if m.hi != 0 {
                lemma_bit64_low(m.hi);
                let t = vstd::std_specs::bits::u64_trailing_zeros(m.hi) as int;
                assert(m.has(63 + t));
            }
        }
        m.lo != 0 || m.hi != 0
    }

    /// The squares of `rhs` that are not in `self`.  The complement is taken
    /// over all bits, those outside the board too.
    pub fn andnot(self, rhs: Bitboard) -> (r: Bitboard)
        ensures
            r.lo == !self.lo & rhs.lo,
            r.hi == !self.hi & rhs.hi,
            forall|sq: int| r.has(sq) == (!self.has(sq) && rhs.has(sq)),
            rhs.spec_is_valid() ==> r.spec_is_valid(),
    {
        proof {
            lemma_bit64_ops(self.lo, rhs.lo);
            lemma_bit64_ops(self.hi, rhs.hi);
            if rhs.spec_is_valid() {
                lemma_bit64_bounds(self.lo, rhs.lo, 0x8000_0000_0000_0000);
                lemma_bit64_bounds(self.hi, rhs.hi, 0x40000);
            }
        }
        Bitboard { lo: !self.lo & rhs.lo, hi: !self.hi & rhs.hi }
    }

    /// The complement within the board.
    pub fn not(self) -> (r: Bitboard)
        requires
            self.spec_is_valid(),
        ensures
            r.lo == self.lo ^ 0x7FFF_FFFF_FFFF_FFFF,
            r.hi == self.hi ^ 0x3FFFF,
            r.spec_is_valid(),
            forall|sq: int| r.has(sq) == (0 <= sq < 81 && !self.has(sq)),
    {
        self.xor(Bitboard::all())
    }

    /// The intersection.
    pub fn and(self, rhs: Bitboard) -> (r: Bitboard)
        ensures
            r.lo == self.lo & rhs.lo,
            r.hi == self.hi & rhs.hi,
            forall|sq: int| r.has(sq) == (self.has(sq) && rhs.has(sq)),
            self.spec_is_valid() || rhs.spec_is_valid() ==> r.spec_is_valid(),
    {
        proof {
            lemma_bit64_ops(self.lo, rhs.lo);
            lemma_bit64_ops(self.hi, rhs.hi);
            let (a, b, c, d) = (self.lo, rhs.lo, self.hi, rhs.hi);
            assert(a & b == b & a && c & d == d & c) by (bit_vector);
            if rhs.spec_is_valid() {
                lemma_bit64_bounds(self.lo, rhs.lo, 0x8000_0000_0000_0000);
                lemma_bit64_bounds(self.hi, rhs.hi, 0x40000);
            }
            if self.spec_is_valid() {
                lemma_bit64_bounds(rhs.lo, self.lo, 0x8000_0000_0000_0000);
                lemma_bit64_bounds(rhs.hi, self.hi, 0x40000);
            }
        }
        Bitboard { lo: self.lo & rhs.lo, hi: self.hi & rhs.hi }
    }

    /// The union.
    pub fn or(self, rhs: Bitboard) -> (r: Bitboard)
        ensures
            r.lo == self.lo | rhs.lo,
            r.hi == self.hi | rhs.hi,
            forall|sq: int| r.has(sq) == (self.has(sq) || rhs.has(sq)),
            self.spec_is_valid() && rhs.spec_is_valid() ==> r.spec_is_valid(),
    {
        proof {
            lemma_bit64_ops(self.lo, rhs.lo);
            lemma_bit64_ops(self.hi, rhs.hi);
            if self.spec_is_valid() && rhs.spec_is_valid() {
                lemma_bit64_bounds(self.lo, rhs.lo, 0x8000_0000_0000_0000);
                lemma_bit64_bounds(self.hi, rhs.hi, 0x40000);
            }
        }
        Bitboard { lo: self.lo | rhs.lo, hi: self.hi | rhs.hi }
    }

    /// The symmetric difference.
    pub fn xor(self, rhs: Bitboard) -> (r: Bitboard)
        ensures
            r.lo == self.lo ^ rhs.lo,
            r.hi == self.hi ^ rhs.hi,
            forall|sq: int| r.has(sq) == (self.has(sq) != rhs.has(sq)),
            self.spec_is_valid() && rhs.spec_is_valid() ==> r.spec_is_valid(),
    {
        proof {
            lemma_bit64_ops(self.lo, rhs.lo);
            lemma_bit64_ops(self.hi, rhs.hi);
            if self.spec_is_valid() && rhs.spec_is_valid() {
                lemma_bit64_bounds(self.lo, rhs.lo, 0x8000_0000_0000_0000);
                lemma_bit64_bounds(self.hi, rhs.hi, 0x40000);
            }
        }
        Bitboard { lo: self.lo ^ rhs.lo, hi: self.hi ^ rhs.hi }
    }

    /// The two words added each by itself, wrapping.
    pub fn add_parts(self, rhs: Bitboard) -> (r: Bitboard)
        ensures
            r.lo == self.lo.wrapping_add(rhs.lo),
            r.hi == self.hi.wrapping_add(rhs.hi),
    {
        Bitboard { lo: self.lo.wrapping_add(rhs.lo), hi: self.hi.wrapping_add(rhs.hi) }
    }

    /// The two words subtracted each by itself, wrapping.
    pub fn sub_parts(self, rhs: Bitboard) -> (r: Bitboard)
        ensures
            r.lo == self.lo.wrapping_sub(rhs.lo),
            r.hi == self.hi.wrapping_sub(rhs.hi),
    {
        Bitboard { lo: self.lo.wrapping_sub(rhs.lo), hi: self.hi.wrapping_sub(rhs.hi) }
    }

    /// The two words shifted left by `N` bits each by itself.
    pub fn logical_shift_left_parts<const N: u32>(self) -> (r: Bitboard)
        requires
            N < 64,
        ensures
            r.lo == self.lo << N,
            r.hi == self.hi << N,
    {
        Bitboard { lo: self.lo << N, hi: self.hi << N }
    }

    /// The two words shifted right by `N` bits each by itself.
    pub fn logical_shift_right_parts<const N: u32>(self) -> (r: Bitboard)
        requires
            N < 64,
        ensures
            r.lo == self.lo >> N,
            r.hi == self.hi >> N,
    {
        Bitboard { lo: self.lo >> N, hi: self.hi >> N }
    }

    /// The number of set bits.
    pub fn count_ones(self) -> (r: u32)
        ensures
            r == popcount64(self.lo) + popcount64(self.hi),
            r <= 128,
    {
        let a: u32 = count_ones_u64(self.lo);
        let b: u32 = count_ones_u64(self.hi);
        a + b
    }

    /// The least square of a valid set that is not empty.
    pub fn get_least_square(self) -> (r: Square)
        requires
            self.spec_is_valid(),
            self.lo != 0 || self.hi != 0,
        ensures
            r.0 == self.least(),
            r.on_board(),
            self.has(r.0 as int),
            forall|sq: int| self.has(sq) ==> r.0 <= sq,
    {
        let lo: u64 = self.lo;
        if lo != 0 {
            proof {
                lemma_bit64_low(lo);
            }
            let i: u32 = lsb_u64(lo);
            Square::from_inner(i as i32)
        } else {
            proof {
                lemma_bit64_low(self.hi);
                lemma_bit64_single(0);
            }
            let i: u32 = 63 + lsb_u64(self.hi);
            Square::from_inner(i as i32)
        }
    }

    /// Takes the least square out of a valid set that is not empty, and
    /// returns it.
    pub fn pop_least_square(&mut self) -> (r: Square)
        requires
            old(self).spec_is_valid(),
            old(self).lo != 0 || old(self).hi != 0,
        ensures
            r.0 == old(self).least(),
            r.on_board(),
            old(self).has(r.0 as int),
            forall|sq: int| old(self).has(sq) ==> r.0 <= sq,
            forall|sq: int| final(self).has(sq) == (old(self).has(sq) && sq != r.0),
            final(self).spec_is_valid(),
            final(self).lo + final(self).hi < old(self).lo + old(self).hi,
    {
        let mut lo: u64 = self.lo;
        if lo != 0 {
            proof {
                lemma_bit64_low(lo);
            }
            let i: u32 = pop_lsb_u64(&mut lo);
            self.lo = lo;
            Square::from_inner(i as i32)
        } else {
            proof {
                lemma_bit64_low(self.hi);
                lemma_bit64_single(0);
            }
            let mut hi: u64 = self.hi;
            let i: u32 = 63 + pop_lsb_u64(&mut hi);
            self.hi = hi;
            Square::from_inner(i as i32)
        }
    }

    /// Calls `f` on each square of a valid set, in ascending order.  `f`
    /// must accept every square of the set; afterwards what `f` ensures
    /// holds of every square of the set.
    pub fn for_each_square<F: Fn(Square)>(self, f: F)
        requires
            self.spec_is_valid(),
            forall|sq: Square| sq.on_board() && self.has(sq.0 as int) ==> call_requires(f, (sq,)),
        ensures
            forall|sq: Square| sq.on_board() && self.has(sq.0 as int) ==> call_ensures(f, (sq,), ()),
    {
        let sqs: Vec<Square> = self.squares();
        let mut i: usize = 0;
        while i < sqs.len()
            invariant
                i <= sqs@.len(),
                forall|k: int|
                    0 <= k < sqs@.len() ==> (#[trigger] sqs@[k]).on_board() && self.has(sqs@[k].0 as int),
                forall|sq: Square| sq.on_board() && self.has(sq.0 as int) ==> call_requires(f, (sq,)),
                forall|k: int| 0 <= k < i ==> call_ensures(f, (#[trigger] sqs@[k],), ()),
            decreases sqs@.len() - i,
        {
            f(sqs[i]);
            i += 1;
        }
        proof {
            assert forall|sq: Square| sq.on_board() && self.has(sq.0 as int) implies call_ensures(
                f,
                (sq,),
                (),
            ) by {
                assert(sqs@.contains(Square(sq.0 as int as i32)));
                let k = choose|k: int| 0 <= k < sqs@.len() && sqs@[k] == sq;
                assert(call_ensures(f, (sqs@[k],), ()));
            }
        }
    }

    /// The squares of a valid set in ascending order.
    pub fn squares(self) -> (r: Vec<Square>)
        requires
            self.spec_is_valid(),
        ensures
            forall|i: int| 0 <= i < r@.len() ==> (#[trigger] r@[i]).on_board() && self.has(r@[i].0 as int),
            forall|sq: int| self.has(sq) ==> r@.contains(Square(sq as i32)),
            forall|i: int, j: int| 0 <= i < j < r@.len() ==> r@[i].0 < r@[j].0,
            r@.len() <= 81,
    {
        let mut v: Vec<Square> = Vec::new();
        let mut bb: Bitboard = self;
        while !bb.is_zero()
            invariant
                bb.spec_is_valid(),
                forall|i: int| 0 <= i < v@.len() ==> (#[trigger] v@[i]).on_board() && self.has(v@[i].0 as int),
                forall|sq: int| self.has(sq) ==> v@.contains(Square(sq as i32)) || bb.has(sq),
                forall|sq: int| bb.has(sq) ==> self.has(sq),
                forall|i: int, j: int| 0 <= i < j < v@.len() ==> v@[i].0 < v@[j].0,
                forall|i: int, sq: int| 0 <= i < v@.len() && bb.has(sq) ==> v@[i].0 < sq,
            decreases bb.lo + bb.hi,
        {
            let ghost vb = v@;
            let ghost before = bb;
            let sq0: Square = bb.pop_least_square();
            v.push(sq0);
            proof {
                assert(v@ == vb.push(sq0));
                assert forall|sq: int| self.has(sq) implies v@.contains(Square(sq as i32)) || bb.has(
                    sq,
                ) by {
                    if vb.contains(Square(sq as i32)) {
                        let k = choose|k: int| 0 <= k < vb.len() && vb[k] == Square(sq as i32);
                        assert(v@[k] == Square(sq as i32));
                    } else if sq == sq0.0 {
                        assert(v@[vb.len() as int] == sq0);
                    }
                }
                assert forall|i: int, sq: int| 0 <= i < v@.len() && bb.has(sq) implies v@[i].0
                    < sq by {
                    assert(before.has(sq));
                }
            }
        }
        proof {
            lemma_sorted_squares_len(v@);
        }
        v
    }

    /// The set with the bytes of both words in reverse order, the words
    /// exchanged.
    pub fn byte_reverse(self) -> (r: Bitboard)
        ensures
            r.lo == bswap64(self.hi),
            r.hi == bswap64(self.lo),
    {
        Bitboard { lo: swap_bytes_u64(self.hi), hi: swap_bytes_u64(self.lo) }
    }

    /// Regroups the words of two sets: the two low words, then the two high
    /// words.  Doing it twice gives the two sets back.
    pub fn unpack_pair(bb_lo: Bitboard, bb_hi: Bitboard) -> (r: (Bitboard, Bitboard))
        ensures
            r.0 == (Bitboard { lo: bb_lo.lo, hi: bb_hi.lo }),
            r.1 == (Bitboard { lo: bb_lo.hi, hi: bb_hi.hi }),
    {
        (Bitboard { lo: bb_lo.lo, hi: bb_hi.lo }, Bitboard { lo: bb_lo.hi, hi: bb_hi.hi })
    }

    /// The two numbers of 128 bits whose low words are the words of `bb_lo`
    /// and whose high words are the words of `bb_hi`, each less one.
    pub open spec fn spec_decrement(bb_lo: Bitboard, bb_hi: Bitboard) -> (Bitboard, Bitboard) {
        (
            Bitboard { lo: bb_lo.lo.wrapping_sub(1), hi: bb_lo.hi.wrapping_sub(1) },
            Bitboard {
                lo: if bb_lo.lo == 0 { bb_hi.lo.wrapping_sub(1) } else { bb_hi.lo },
                hi: if bb_lo.hi == 0 { bb_hi.hi.wrapping_sub(1) } else { bb_hi.hi },
            },
        )
    }

    /// Takes one away from each of the two numbers of 128 bits whose low
    /// words are the words of `bb_lo` and whose high words are the words of
    /// `bb_hi`.
    pub fn decrement_unpacked_pair(bb_lo: Bitboard, bb_hi: Bitboard) -> (r: (Bitboard, Bitboard))
        ensures
            r == Bitboard::spec_decrement(bb_lo, bb_hi),
    {
        let hi: Bitboard = Bitboard {
            lo: if bb_lo.lo == 0 { bb_hi.lo.wrapping_sub(1) } else { bb_hi.lo },
            hi: if bb_lo.hi == 0 { bb_hi.hi.wrapping_sub(1) } else { bb_hi.hi },
        };
        let lo: Bitboard = Bitboard { lo: bb_lo.lo.wrapping_sub(1), hi: bb_lo.hi.wrapping_sub(1) };
        (lo, hi)
    }

    /// Whether an on-board square is held in the low word.
    pub fn square_is_part0(sq: Square) -> (r: bool)
        ensures
            r == (sq.0 <= 62),
    {
        sq.0 <= 62
    }

    /// Whether an on-board square is held in the high word.
    pub fn square_is_part1(sq: Square) -> (r: bool)
        ensures
            r == (sq.0 > 62),
    {
        !Bitboard::square_is_part0(sq)
    }
}

/// Two words with the same bits are equal.
pub proof fn lemma_bit64_ext(x: u64, y: u64)
    requires
        forall|i: int| 0 <= i < 64 ==> bit64(x, i) == bit64(y, i),
    ensures
        x == y,
{
    let z: u64 = x ^ y;
    if z != 0 {
        lemma_bit64_low(z);
        lemma_bit64_ops(x, y);
        let t = vstd::std_specs::bits::u64_trailing_zeros(z) as int;
        assert(bit64(z, t));
        assert(bit64(x, t) != bit64(y, t));
    }
    assert(x ^ y == 0 ==> x == y) by (bit_vector);
}

/// Two valid sets with the same squares are equal.
pub proof fn lemma_bitboard_ext(a: Bitboard, b: Bitboard)
    requires
        a.spec_is_valid(),
        b.spec_is_valid(),
        forall|q: int| 0 <= q < 81 ==> a.has(q) == b.has(q),
    ensures
        a == b,
{
    lemma_bit64_high(a.lo, a.hi);
    lemma_bit64_high(b.lo, b.hi);
    assert forall|i: int| 0 <= i < 64 implies bit64(a.lo, i) == bit64(b.lo, i) by {
        if i < 63 {
            assert(a.has(i) == b.has(i));
        }
    }
    assert forall|i: int| 0 <= i < 64 implies bit64(a.hi, i) == bit64(b.hi, i) by {
        if i < 18 {
            assert(a.has(63 + i) == b.has(63 + i));
        }
    }
    lemma_bit64_ext(a.lo, b.lo);
    lemma_bit64_ext(a.hi, b.hi);
}

/// Two sets of squares side by side, as they are used to follow the four
/// diagonals of a bishop at once.
#[derive(Clone, Copy, Debug, PartialEq, Eq, Structural, Hash)]
pub struct Bitboard256 {
    pub lo: Bitboard,
    pub hi: Bitboard,
}

impl Bitboard256 {
    /// Two empty sets.
    pub fn zero() -> (r: Bitboard256)
        ensures
            r.lo == (Bitboard { lo: 0, hi: 0 }),
            r.hi == (Bitboard { lo: 0, hi: 0 }),
    {
        Bitboard256 { lo: Bitboard::zero(), hi: Bitboard::zero() }
    }

    /// The set `bb` twice.
    pub fn broadcast_bitboard(bb: Bitboard) -> (r: Bitboard256)
        ensures
            r.lo == bb,
            r.hi == bb,
    {
        Bitboard256 { lo: bb, hi: bb }
    }

    /// The two sets together.
    pub fn from_bitboards(lo: Bitboard, hi: Bitboard) -> (r: Bitboard256)
        ensures
            r.lo == lo,
            r.hi == hi,
    {
        Bitboard256 { lo, hi }
    }

    /// The union of the two sets.
    pub fn merge(self) -> (r: Bitboard)
        ensures
            r.lo == self.lo.lo | self.hi.lo,
            r.hi == self.lo.hi | self.hi.hi,
            forall|sq: int| r.has(sq) == (self.lo.has(sq) || self.hi.has(sq)),
    {
        self.lo.or(self.hi)
    }

    /// Each of the two sets with its bytes in reverse order.
    pub fn byte_reverse(self) -> (r: Bitboard256)
        ensures
            r.lo.lo == bswap64(self.lo.hi),
            r.lo.hi == bswap64(self.lo.lo),
            r.hi.lo == bswap64(self.hi.hi),
            r.hi.hi == bswap64(self.hi.lo),
    {
        Bitboard256 { lo: self.lo.byte_reverse(), hi: self.hi.byte_reverse() }
    }

    /// Regroups the words of two pairs, set by set: the two low words, then
    /// the two high words.  Doing it twice gives the two pairs back.
    pub fn unpack_pair(bb_lo: Bitboard256, bb_hi: Bitboard256) -> (r: (Bitboard256, Bitboard256))
        ensures
            r.0.lo == (Bitboard { lo: bb_lo.lo.lo, hi: bb_hi.lo.lo }),
            r.0.hi == (Bitboard { lo: bb_lo.hi.lo, hi: bb_hi.hi.lo }),
            r.1.lo == (Bitboard { lo: bb_lo.lo.hi, hi: bb_hi.lo.hi }),
            r.1.hi == (Bitboard { lo: bb_lo.hi.hi, hi: bb_hi.hi.hi }),
    {
        let (a_lo, a_hi) = Bitboard::unpack_pair(bb_lo.lo, bb_hi.lo);
        let (b_lo, b_hi) = Bitboard::unpack_pair(bb_lo.hi, bb_hi.hi);
        (Bitboard256 { lo: a_lo, hi: b_lo }, Bitboard256 { lo: a_hi, hi: b_hi })
    }

    /// Takes one away from each of the four numbers of 128 bits whose low
    /// words are the words of `bb_lo` and whose high words are the words of
    /// `bb_hi`.
    pub fn decrement_unpacked_pair(bb_lo: Bitboard256, bb_hi: Bitboard256) -> (r: (
        Bitboard256,
        Bitboard256,
    ))
        ensures
            (r.0.lo, r.1.lo) == Bitboard::spec_decrement(bb_lo.lo, bb_hi.lo),
            (r.0.hi, r.1.hi) == Bitboard::spec_decrement(bb_lo.hi, bb_hi.hi),
    {
        let (a_lo, a_hi) = Bitboard::decrement_unpacked_pair(bb_lo.lo, bb_hi.lo);
        let (b_lo, b_hi) = Bitboard::decrement_unpacked_pair(bb_lo.hi, bb_hi.hi);
        (Bitboard256 { lo: a_lo, hi: b_lo }, Bitboard256 { lo: a_hi, hi: b_hi })
    }

    /// The intersection, set by set.
    pub fn and(self, rhs: Bitboard256) -> (r: Bitboard256)
        ensures
            r.lo.lo == self.lo.lo & rhs.lo.lo,
            r.lo.hi == self.lo.hi & rhs.lo.hi,
            r.hi.lo == self.hi.lo & rhs.hi.lo,
            r.hi.hi == self.hi.hi & rhs.hi.hi,
    {
        Bitboard256 { lo: self.lo.and(rhs.lo), hi: self.hi.and(rhs.hi) }
    }

    /// The union, set by set.
    pub fn or(self, rhs: Bitboard256) -> (r: Bitboard256)
        ensures
            r.lo.lo == self.lo.lo | rhs.lo.lo,
            r.lo.hi == self.lo.hi | rhs.lo.hi,
            r.hi.lo == self.hi.lo | rhs.hi.lo,
            r.hi.hi == self.hi.hi | rhs.hi.hi,
    {
        Bitboard256 { lo: self.lo.or(rhs.lo), hi: self.hi.or(rhs.hi) }
    }

    /// The symmetric difference, set by set.
    pub fn xor(self, rhs: Bitboard256) -> (r: Bitboard256)
        ensures
            r.lo.lo == self.lo.lo ^ rhs.lo.lo,
            r.lo.hi == self.lo.hi ^ rhs.lo.hi,
            r.hi.lo == self.hi.lo ^ rhs.hi.lo,
            r.hi.hi == self.hi.hi ^ rhs.hi.hi,
    {
        Bitboard256 { lo: self.lo.xor(rhs.lo), hi: self.hi.xor(rhs.hi) }
    }
}

/// A strictly ascending sequence of on-board squares has at most 81 items.
pub proof fn lemma_sorted_squares_len(s: Seq<Square>)
    requires
        forall|i: int| 0 <= i < s.len() ==> (#[trigger] s[i]).on_board(),
        forall|i: int, j: int| 0 <= i < j < s.len() ==> s[i].0 < s[j].0,
    ensures
        s.len() <= 81,
        forall|i: int| 0 <= i < s.len() ==> i <= (#[trigger] s[i]).0,
    decreases s.len(),
{
    if s.len() > 0 {
        let t = s.drop_last();
        lemma_sorted_squares_len(t);
        let n = s.len() - 1;
        if n > 0 {
            assert(t[n - 1] == s[n - 1]);
            assert(s[n - 1].0 < s[n].0);
        }
        assert forall|i: int| 0 <= i < s.len() implies i <= (#[trigger] s[i]).0 by {
            if i < n {
                assert(t[i] == s[i]);
            }
        }
        assert(s[n].on_board());
    }
}

/// The number of set bits of `x`.
pub fn count_ones_u64(x: u64) -> (r: u32)
    ensures
        r == popcount64(x),
        r <= 64,
{
    let mut n: u32 = 0;
    let mut y: u64 = x;
    proof {
        lemma_popcount_bound(x);
    }
    while y != 0
        invariant
            n + popcount64(y) == popcount64(x),
            popcount64(x) <= 64,
        decreases y,
    {
        let _i: u32 = pop_lsb_u64(&mut y);
        n = n + 1;
    }
    n
}

/// A word has at most 64 set bits.
pub proof fn lemma_popcount_bound(x: u64)
    ensures
        popcount64(x) <= 64,
{
    assert((x >> 0u64) << 0u64 == x) by (bit_vector);
    lemma_popcount_from(x, 0);
}

/// A word whose `n` lowest bits are zero has at most `64 - n` set bits.
pub proof fn lemma_popcount_from(x: u64, n: u64)
    requires
        n <= 64,
        n < 64 ==> (x >> n) << n == x,
        n == 64 ==> x == 0,
    ensures
        popcount64(x) <= 64 - n,
    decreases 64 - n,
{
    if x != 0 {
        let y: u64 = x & ((x - 1) as u64);
        let n1: u64 = (n + 1) as u64;
        assert(y < x && (n1 < 64 ==> (y >> n1) << n1 == y) && (n1 == 64 ==> y == 0)) by (bit_vector)
            requires
                x != 0,
                y == x & ((x - 1) as u64),
                n < 64,
                n1 == n + 1,
                (x >> n) << n == x,
        ;
        lemma_popcount_from(y, n1);
    }
}

/// The value with the bytes of `x` in reverse order.
pub fn swap_bytes_u64(x: u64) -> (r: u64)
    ensures
        r == bswap64(x),
{
    ((x & 0xFF) << 56) | ((x & 0xFF00) << 40) | ((x & 0xFF_0000) << 24) | ((x & 0xFF00_0000) << 8)
        | ((x >> 8) & 0xFF00_0000) | ((x >> 24) & 0xFF_0000) | ((x >> 40) & 0xFF00) | ((x >> 56)
        & 0xFF)
}

} // verus!
