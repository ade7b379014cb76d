//! The board and the pieces held in hand.

use vstd::prelude::*;
use crate::shogi::{Side, Square};
use crate::piece::{Piece, PieceKind};

verus! {

/// The 81 squares with what stands on them, in the order of the squares.
#[derive(Clone, Debug, PartialEq, Eq, Hash)]
pub struct Board(pub [Piece; 81]);

impl Board {
    /// The squares as a sequence of length 81.
    pub open spec fn view(&self) -> Seq<Piece> {
        self.0@
    }

    /// The initial position of an even game, as a specification.
    pub open spec fn startpos_spec() -> Seq<Piece> {
        seq![
            Piece::CLance, Piece::NoPiece, Piece::CPawn, Piece::NoPiece, Piece::NoPiece, Piece::NoPiece, Piece::HPawn, Piece::NoPiece, Piece::HLance,
            Piece::CKnight, Piece::CBishop, Piece::CPawn, Piece::NoPiece, Piece::NoPiece, Piece::NoPiece, Piece::HPawn, Piece::HRook, Piece::HKnight,
            Piece::CSilver, Piece::NoPiece, Piece::CPawn, Piece::NoPiece, Piece::NoPiece, Piece::NoPiece, Piece::HPawn, Piece::NoPiece, Piece::HSilver,
            Piece::CGold, Piece::NoPiece, Piece::CPawn, Piece::NoPiece, Piece::NoPiece, Piece::NoPiece, Piece::HPawn, Piece::NoPiece, Piece::HGold,
            Piece::CKing, Piece::NoPiece, Piece::CPawn, Piece::NoPiece, Piece::NoPiece, Piece::NoPiece, Piece::HPawn, Piece::NoPiece, Piece::HKing,
            Piece::CGold, Piece::NoPiece, Piece::CPawn, Piece::NoPiece, Piece::NoPiece, Piece::NoPiece, Piece::HPawn, Piece::NoPiece, Piece::HGold,
            Piece::CSilver, Piece::NoPiece, Piece::CPawn, Piece::NoPiece, Piece::NoPiece, Piece::NoPiece, Piece::HPawn, Piece::NoPiece, Piece::HSilver,
            Piece::CKnight, Piece::CRook, Piece::CPawn, Piece::NoPiece, Piece::NoPiece, Piece::NoPiece, Piece::HPawn, Piece::HBishop, Piece::HKnight,
            Piece::CLance, Piece::NoPiece, Piece::CPawn, Piece::NoPiece, Piece::NoPiece, Piece::NoPiece, Piece::HPawn, Piece::NoPiece, Piece::HLance,
        ]
    }

    /// The empty board.
    pub fn empty() -> (r: Board)
        ensures
            r@.len() == 81,
            forall|i: int| 0 <= i < 81 ==> r@[i] == Piece::NoPiece,
    {
        Board([Piece::NoPiece; 81])
    }

    /// The initial position of an even game.
    pub fn startpos() -> (r: Board)
        ensures
            r@ =~= Board::startpos_spec(),
    {
        Board([
            Piece::CLance, Piece::NoPiece, Piece::CPawn, Piece::NoPiece, Piece::NoPiece, Piece::NoPiece, Piece::HPawn, Piece::NoPiece, Piece::HLance,
            Piece::CKnight, Piece::CBishop, Piece::CPawn, Piece::NoPiece, Piece::NoPiece, Piece::NoPiece, Piece::HPawn, Piece::HRook, Piece::HKnight,
            Piece::CSilver, Piece::NoPiece, Piece::CPawn, Piece::NoPiece, Piece::NoPiece, Piece::NoPiece, Piece::HPawn, Piece::NoPiece, Piece::HSilver,
            Piece::CGold, Piece::NoPiece, Piece::CPawn, Piece::NoPiece, Piece::NoPiece, Piece::NoPiece, Piece::HPawn, Piece::NoPiece, Piece::HGold,
            Piece::CKing, Piece::NoPiece, Piece::CPawn, Piece::NoPiece, Piece::NoPiece, Piece::NoPiece, Piece::HPawn, Piece::NoPiece, Piece::HKing,
            Piece::CGold, Piece::NoPiece, Piece::CPawn, Piece::NoPiece, Piece::NoPiece, Piece::NoPiece, Piece::HPawn, Piece::NoPiece, Piece::HGold,
            Piece::CSilver, Piece::NoPiece, Piece::CPawn, Piece::NoPiece, Piece::NoPiece, Piece::NoPiece, Piece::HPawn, Piece::NoPiece, Piece::HSilver,
            Piece::CKnight, Piece::CRook, Piece::CPawn, Piece::NoPiece, Piece::NoPiece, Piece::NoPiece, Piece::HPawn, Piece::HBishop, Piece::HKnight,
            Piece::CLance, Piece::NoPiece, Piece::CPawn, Piece::NoPiece, Piece::NoPiece, Piece::NoPiece, Piece::HPawn, Piece::NoPiece, Piece::HLance,
        ])
    }

    /// What stands on an on-board square.
    pub fn get(&self, sq: Square) -> (r: Piece)
        requires
            sq.on_board(),
        ensures
            r == self@[sq.0 as int],
    {
        self.0[sq.0 as usize]
    }

    /// Puts `pc` on an on-board square.
    pub fn set(&mut self, sq: Square, pc: Piece)
        requires
            sq.on_board(),
        ensures
            final(self)@ == old(self)@.update(sq.0 as int, pc),
    {
        self.0[sq.0 as usize] = pc;
    }

    /// Whether the two boards hold the same pieces on every square.
    pub fn same(&self, other: &Board) -> (r: bool)
        ensures
            r == (self@ =~= other@),
    {
        let mut i: usize = 0;
        while i < 81
            invariant
                i <= 81,
                forall|j: int| 0 <= j < i ==> self@[j] == other@[j],
            decreases 81 - i,
        {
            if self.0[i] != other.0[i] {
                return false;
            }
            i += 1;
        }
        true
    }
}

/// The pieces that one side holds in hand: a count for each kind, indexed
/// by the value of the kind.  Index 0 is not used.
#[derive(Clone, Copy, Debug, PartialEq, Eq, Hash)]
pub struct Hand(pub [u32; 8]);

impl Hand {
    /// The counts as a sequence of length 8.
    pub open spec fn view(&self) -> Seq<u32> {
        self.0@
    }

    /// The count of kind `pk`.
    pub open spec fn count(&self, pk: PieceKind) -> int {
        self.0@[pk.value()] as int
    }

    /// The hand that holds nothing.
    pub fn empty() -> (r: Hand)
        ensures
            forall|i: int| 0 <= i < 8 ==> r@[i] == 0,
    {
        Hand([0u32; 8])
    }

    /// Whether the hand holds nothing.
    pub fn is_empty(&self) -> (r: bool)
        ensures
            r == (forall|i: int| 0 <= i < 8 ==> self@[i] == 0),
    {
        let mut i: usize = 0;
        while i < 8
            invariant
                i <= 8,
                forall|j: int| 0 <= j < i ==> self@[j] == 0,
            decreases 8 - i,
        {
            if self.0[i] != 0 {
                assert(self@[i as int] != 0);
                return false;
            }
            i += 1;
        }
        true
    }

    /// The count of a kind that can be held in hand.
    pub fn get(&self, pk: PieceKind) -> (r: u32)
        requires
            pk.is_hand(),
        ensures
            r == self.count(pk),
    {
        self.0[pk.inner() as usize]
    }

    /// Sets the count of a kind that can be held in hand.
    pub fn set(&mut self, pk: PieceKind, n: u32)
        requires
            pk.is_hand(),
        ensures
            final(self)@ == old(self)@.update(pk.value(), n),
    {
        self.0[pk.inner() as usize] = n;
    }

    /// Whether the two hands hold the same counts.
    pub fn same(&self, other: &Hand) -> (r: bool)
        ensures
            r == (self@ =~= other@),
    {
        let mut i: usize = 0;
        while i < 8
            invariant
                i <= 8,
                forall|j: int| 0 <= j < i ==> self@[j] == other@[j],
            decreases 8 - i,
        {
            if self.0[i] != other.0[i] {
                return false;
            }
            i += 1;
        }
        true
    }
}

/// The hands of both sides: HUM's first, then COM's.
#[derive(Clone, Copy, Debug, PartialEq, Eq, Hash)]
pub struct Hands(pub [Hand; 2]);

impl Hands {
    /// The hand of `side`.
    pub open spec fn of(&self, side: Side) -> Hand {
        self.0@[side.index()]
    }

    /// Both hands empty.
    pub fn empty() -> (r: Hands)
        ensures
            forall|s: Side, i: int| 0 <= i < 8 ==> r.of(s)@[i] == 0,
    {
        Hands([Hand([0u32; 8]), Hand([0u32; 8])])
    }

    /// The two hands together.
    pub fn new(hum: Hand, com: Hand) -> (r: Hands)
        ensures
            r.of(Side::Hum) == hum,
            r.of(Side::Com) == com,
    {
        Hands([hum, com])
    }

    /// The hand of `side`.
    pub fn get(&self, side: Side) -> (r: Hand)
        ensures
            r == self.of(side),
    {
        match side {
            Side::Hum => self.0[0],
            Side::Com => self.0[1],
        }
    }

    /// Replaces the hand of `side`.
    pub fn set(&mut self, side: Side, hand: Hand)
        ensures
            final(self).of(side) == hand,
            final(self).of(side.opp()) == old(self).of(side.opp()),
    {
        match side {
            Side::Hum => {
                self.0[0] = hand;
            },
            Side::Com => {
                self.0[1] = hand;
            },
        }
    }
}

} // verus!
