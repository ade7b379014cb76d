//! Attack bookkeeping: per-square attack counts of one side, per-square
//! ray directions of both sides, and pairs of direction sets.

use vstd::prelude::*;
use crate::shogi::{Side, Square};
use crate::direction::{Direction, DirectionSet, lemma_byte_bits, lemma_direction_set_least};
use crate::piece::Piece;

verus! {

impl DirectionSet {
    /// The directions in which `pc` carries a ray of its own side one square
    /// further.  Empty for knights, kings and "no piece".
    pub fn from_piece_supported(pc: Piece) -> (r: DirectionSet)
        ensures
            forall|d: Direction| r.has(d) == pc.supports(d),
    {
        let r: DirectionSet = match pc {
            Piece::NoPiece => DirectionSet(0),
            Piece::HPawn => DirectionSet(8),
            Piece::HLance => DirectionSet(8),
            Piece::HKnight => DirectionSet(0),
            Piece::HSilver => DirectionSet(173),
            Piece::HBishop => DirectionSet(165),
            Piece::HRook => DirectionSet(90),
            Piece::HGold => DirectionSet(123),
            Piece::HKing => DirectionSet(0),
            Piece::HProPawn => DirectionSet(123),
            Piece::HProLance => DirectionSet(123),
            Piece::HProKnight => DirectionSet(123),
            Piece::HProSilver => DirectionSet(123),
            Piece::HHorse => DirectionSet(255),
            Piece::HDragon => DirectionSet(255),
            Piece::CPawn => DirectionSet(16),
            Piece::CLance => DirectionSet(16),
            Piece::CKnight => DirectionSet(0),
            Piece::CSilver => DirectionSet(181),
            Piece::CBishop => DirectionSet(165),
            Piece::CRook => DirectionSet(90),
            Piece::CGold => DirectionSet(222),
            Piece::CKing => DirectionSet(0),
            Piece::CProPawn => DirectionSet(222),
            Piece::CProLance => DirectionSet(222),
            Piece::CProKnight => DirectionSet(222),
            Piece::CProSilver => DirectionSet(222),
            Piece::CHorse => DirectionSet(255),
            Piece::CDragon => DirectionSet(255),
        };
        proof {
            lemma_byte_bits(r.0);
        }
        r
    }
}

/// The attack counts of one side on the 81 squares.
///
/// A count holds every attack by a step or a jump, every attack along a
/// ray, and one more for every ray that a piece of the same side carries one
/// square further.
#[derive(Clone, Debug, PartialEq, Eq, Hash)]
pub struct EffectCountBoard(pub [u8; 81]);

impl EffectCountBoard {
    /// The counts as a sequence of length 81.
    pub open spec fn view(&self) -> Seq<u8> {
        self.0@
    }

    /// The board with no attack at all.
    pub fn empty() -> (r: EffectCountBoard)
        ensures
            r@.len() == 81,
            forall|i: int| 0 <= i < 81 ==> r@[i] == 0,
    {
        EffectCountBoard([0u8; 81])
    }

    /// The count on an on-board square.
    pub fn get(&self, sq: Square) -> (r: u8)
        requires
            sq.on_board(),
        ensures
            r == self@[sq.0 as int],
    {
        self.0[sq.0 as usize]
    }

    /// Sets the count on an on-board square.
    pub fn set(&mut self, sq: Square, n: u8)
        requires
            sq.on_board(),
        ensures
            final(self)@ == old(self)@.update(sq.0 as int, n),
    {
        self.0[sq.0 as usize] = n;
    }
}

/// The ray directions of both sides that reach each of the 81 squares.
#[derive(Clone, Debug, PartialEq, Eq, Hash)]
pub struct RangedEffectBoard(pub [DirectionSetPair; 81]);

impl RangedEffectBoard {
    /// The pairs as a sequence of length 81.
    pub open spec fn view(&self) -> Seq<DirectionSetPair> {
        self.0@
    }

    /// The board with no ray at all.
    pub fn empty() -> (r: RangedEffectBoard)
        ensures
            r@.len() == 81,
            forall|i: int| 0 <= i < 81 ==> r@[i] == DirectionSetPair(0),
    {
        RangedEffectBoard([DirectionSetPair(0); 81])
    }

    /// The pair on an on-board square.
    pub fn get(&self, sq: Square) -> (r: DirectionSetPair)
        requires
            sq.on_board(),
        ensures
            r == self@[sq.0 as int],
    {
        self.0[sq.0 as usize]
    }

    /// Sets the pair on an on-board square.
    pub fn set(&mut self, sq: Square, dsp: DirectionSetPair)
        requires
            sq.on_board(),
        ensures
            final(self)@ == old(self)@.update(sq.0 as int, dsp),
    {
        self.0[sq.0 as usize] = dsp;
    }
}

/// Two direction sets, one for each side: the low byte is HUM's, the high
/// byte is COM's.
#[derive(Clone, Copy, Debug, PartialEq, Eq, Structural, Hash)]
pub struct DirectionSetPair(pub u16);

impl DirectionSetPair {
    /// The set of `side`.
    pub open spec fn of(self, side: Side) -> DirectionSet {
        match side {
            Side::Hum => DirectionSet((self.0 % 256) as u8),
            Side::Com => DirectionSet((self.0 / 256) as u8),
        }
    }

    /// The pair made of the two sets.
    pub open spec fn pair(hum: DirectionSet, com: DirectionSet) -> DirectionSetPair {
        DirectionSetPair((hum.0 + 256 * com.0) as u16)
    }

    /// The pair whose sets are both empty.
    pub fn empty() -> (r: DirectionSetPair)
        ensures
            r.0 == 0,
            r.of(Side::Hum).0 == 0,
            r.of(Side::Com).0 == 0,
    {
        DirectionSetPair(0)
    }

    /// The pair whose sets both hold every direction.
    pub fn all() -> (r: DirectionSetPair)
        ensures
            r.0 == 0xFFFF,
            r.of(Side::Hum).0 == 0xFF,
            r.of(Side::Com).0 == 0xFF,
    {
        DirectionSetPair(0xFFFF)
    }

    /// The pair made of the two sets.
    pub fn new(dirs_hum: DirectionSet, dirs_com: DirectionSet) -> (r: DirectionSetPair)
        ensures
            r == DirectionSetPair::pair(dirs_hum, dirs_com),
            r.of(Side::Hum) == dirs_hum,
            r.of(Side::Com) == dirs_com,
    {
        let lo: u16 = dirs_hum.0 as u16;
        let hi: u16 = dirs_com.0 as u16;
        DirectionSetPair(lo + 256 * hi)
    }

    /// The pair that holds `dirs` for `side` and nothing for the other side.
    pub fn from_part(side: Side, dirs: DirectionSet) -> (r: DirectionSetPair)
        ensures
            r.of(side) == dirs,
            r.of(side.opp()).0 == 0,
    {
        match side {
            Side::Hum => DirectionSetPair::new(dirs, DirectionSet(0)),
            Side::Com => DirectionSetPair::new(DirectionSet(0), dirs),
        }
    }

    /// The directions in which `pc` attacks along a ray, held for the side
    /// of `pc`; the other side's set is empty.
    pub fn from_piece_ranged(pc: Piece) -> (r: DirectionSetPair)
        ensures
            forall|d: Direction| r.of(pc.spec_side()).has(d) == pc.slides(d),
            r.of(pc.spec_side().opp()).0 == 0,
    {
        let r: DirectionSetPair = match pc {
            Piece::HLance => DirectionSetPair(8),
            Piece::HBishop => DirectionSetPair(165),
            Piece::HRook => DirectionSetPair(90),
            Piece::HHorse => DirectionSetPair(165),
            Piece::HDragon => DirectionSetPair(90),
            Piece::CLance => DirectionSetPair(4096),
            Piece::CBishop => DirectionSetPair(42240),
            Piece::CRook => DirectionSetPair(23040),
            Piece::CHorse => DirectionSetPair(42240),
            Piece::CDragon => DirectionSetPair(23040),
            _ => DirectionSetPair(0),
        };
        proof {
            lemma_byte_bits(r.of(pc.spec_side()).0);
        }
        r
    }

    /// Whether both sets are empty.
    pub fn is_empty(self) -> (r: bool)
        ensures
            r == (self.0 == 0),
            r == (self.of(Side::Hum).0 == 0 && self.of(Side::Com).0 == 0),
    {
        self.0 == 0
    }

    /// The set of `side`.
    pub fn get(self, side: Side) -> (r: DirectionSet)
        ensures
            r == self.of(side),
    {
        match side {
            Side::Hum => DirectionSet((self.0 % 256) as u8),
            Side::Com => DirectionSet((self.0 / 256) as u8),
        }
    }

    /// The direction that `pop` takes out next: the least direction of
    /// HUM's set, or of COM's set when HUM's is empty.
    pub open spec fn next(self) -> Direction {
        if self.of(Side::Hum).0 != 0 {
            self.of(Side::Hum).least()
        } else {
            self.of(Side::Com).least()
        }
    }

    /// Takes one direction out of both sets, and returns it together with
    /// the pair that says which side held it.  The pair must not be empty.
    pub fn pop(&mut self) -> (r: (Direction, DirectionSetPair))
        requires
            old(self).0 != 0,
        ensures
            r.0 == old(self).next(),
            forall|s: Side, d: Direction| r.1.of(s).has(d) == (d == r.0 && old(self).of(s).has(d)),
            forall|s: Side, d: Direction|
                final(self).of(s).has(d) == (d != r.0 && old(self).of(s).has(d)),
            old(self).of(Side::Hum).has(r.0) || old(self).of(Side::Com).has(r.0),
            final(self).0 < old(self).0,
    {
        let hum: DirectionSet = self.get(Side::Hum);
        let com: DirectionSet = self.get(Side::Com);
        proof {
            lemma_direction_set_least(hum.0);
            lemma_direction_set_least(com.0);
        }
        let dir: Direction = if hum.0 != 0 { hum.get_least() } else { com.get_least() };
        let one: DirectionSet = DirectionSet::from_direction(dir);
        let dsp: DirectionSetPair = DirectionSetPair::new(hum.and(one), com.and(one));
        let rest_hum: DirectionSet = hum.and(one.not());
        let rest_com: DirectionSet = com.and(one.not());
        proof {
            crate::direction::lemma_direction_set_sub(hum.0, one.0);
            crate::direction::lemma_direction_set_sub(com.0, one.0);
            if hum.0 != 0 {
                assert(hum.has(dir));
                assert(rest_hum.0 < hum.0) by {
                    if rest_hum.0 == hum.0 {
                        assert(rest_hum.has(dir));
                    }
                }
            } else {
                assert(com.has(dir));
                assert(rest_com.0 < com.0) by {
                    if rest_com.0 == com.0 {
                        assert(rest_com.has(dir));
                    }
                }
            }
        }
        *self = DirectionSetPair::new(rest_hum, rest_com);
        (dir, dsp)
    }

    /// The pair of the complements.
    pub fn not(self) -> (r: DirectionSetPair)
        ensures
            forall|s: Side, d: Direction| r.of(s).has(d) == !self.of(s).has(d),
    {
        DirectionSetPair::new(self.get(Side::Hum).not(), self.get(Side::Com).not())
    }

    /// The pair of the intersections.
    pub fn and(self, rhs: DirectionSetPair) -> (r: DirectionSetPair)
        ensures
            forall|s: Side, d: Direction| r.of(s).has(d) == (self.of(s).has(d) && rhs.of(s).has(d)),
    {
        DirectionSetPair::new(
            self.get(Side::Hum).and(rhs.get(Side::Hum)),
            self.get(Side::Com).and(rhs.get(Side::Com)),
        )
    }

    /// The pair of the unions.
    pub fn or(self, rhs: DirectionSetPair) -> (r: DirectionSetPair)
        ensures
            forall|s: Side, d: Direction| r.of(s).has(d) == (self.of(s).has(d) || rhs.of(s).has(d)),
    {
        DirectionSetPair::new(
            self.get(Side::Hum).or(rhs.get(Side::Hum)),
            self.get(Side::Com).or(rhs.get(Side::Com)),
        )
    }

    /// The pair of the symmetric differences.
    pub fn xor(self, rhs: DirectionSetPair) -> (r: DirectionSetPair)
        ensures
            forall|s: Side, d: Direction| r.of(s).has(d) == (self.of(s).has(d) != rhs.of(s).has(d)),
    {
        DirectionSetPair::new(
            self.get(Side::Hum).xor(rhs.get(Side::Hum)),
            self.get(Side::Com).xor(rhs.get(Side::Com)),
        )
    }
}

} // verus!
