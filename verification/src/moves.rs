//! Moves packed into 32 bits.
//!
//! * bits 0-6: destination square
//! * bits 7-13: origin square, or the dropped kind for a drop
//! * bit 14: set for a drop
//! * bit 15: set for a promotion
//! * bit 16: set for a take-back ("matta") move
//!
//! An undoable move replaces the take-back bit by two fields of five bits:
//! the piece that moved (bits 16-20) and the piece that was captured
//! (bits 21-25).

use vstd::prelude::*;
use crate::shogi::Square;
use crate::piece::{Piece, PieceKind};

verus! {

/// Whether `v` is the value of a piece or of "no piece".
pub open spec fn piece_value_ok(v: int) -> bool {
    0 <= v <= 14 || 17 <= v <= 30
}

/// The piece with value `v`.
pub open spec fn piece_of_value(v: int) -> Piece {
    if v >= 17 {
        Piece::of(crate::shogi::Side::Com, PieceKind::of_value(v - 16))
    } else {
        Piece::of(crate::shogi::Side::Hum, PieceKind::of_value(v))
    }
}

/// How the fields of a packed move are read back.
pub proof fn lemma_move_fields(m: u32, a: u32, b: u32)
    requires
        m < 65536,
        a < 32,
        b < 32,
    ensures
        ({
            let v = (m + 65536 * a + 2097152 * b) as u32;
            &&& v == m + 65536 * a + 2097152 * b
            &&& v % 65536 == m
            &&& (v / 65536) % 32 == a
            &&& (v / 2097152) % 32 == b
            &&& v % 128 == m % 128
            &&& (v / 128) % 128 == (m / 128) % 128
            &&& (v / 16384) % 2 == (m / 16384) % 2
            &&& (v / 32768) % 2 == (m / 32768) % 2
        }),
{
    let v: u32 = (m + 65536 * a + 2097152 * b) as u32;
    assert(v % 65536 == m && (v / 65536) % 32 == a && (v / 2097152) % 32 == b && v % 128 == m % 128
        && (v / 128) % 128 == (m / 128) % 128 && (v / 16384) % 2 == (m / 16384) % 2 && (v / 32768)
        % 2 == (m / 32768) % 2) by (bit_vector)
        requires
            m < 65536,
            a < 32,
            b < 32,
            v == m + 65536 * a + 2097152 * b,
    ;
}

/// How the fields of a move show in its low sixteen bits.
pub proof fn lemma_move_low(v: u32)
    ensures
        ({
            let m = (v % 65536) as u32;
            &&& m < 65536
            &&& m % 128 == v % 128
            &&& (m / 128) % 128 == (v / 128) % 128
            &&& (m / 16384) % 2 == (v / 16384) % 2
            &&& (m / 32768) % 2 == (v / 32768) % 2
            &&& (m / 65536) % 2 == 0
            &&& (m / 65536) % 32 == 0
            &&& (m / 2097152) % 32 == 0
        }),
{
    let m: u32 = (v % 65536) as u32;
    assert(m < 65536 && m % 128 == v % 128 && (m / 128) % 128 == (v / 128) % 128 && (m / 16384) % 2
        == (v / 16384) % 2 && (m / 32768) % 2 == (v / 32768) % 2 && (m / 65536) % 2 == 0 && (m
        / 65536) % 32 == 0 && (m / 2097152) % 32 == 0) by (bit_vector)
        requires
            m == v % 65536,
    ;
}

/// A move.
#[derive(Clone, Copy, Debug, PartialEq, Eq, Structural, Hash)]
pub struct Move(pub u32);

impl Move {
    /// The field in bits 7-13.
    pub open spec fn from_field(self) -> int {
        (self.0 as int / 128) % 128
    }

    pub open spec fn spec_is_drop(self) -> bool {
        (self.0 as int / 16384) % 2 == 1
    }

    pub open spec fn spec_is_promotion(self) -> bool {
        (self.0 as int / 32768) % 2 == 1
    }

    pub open spec fn spec_is_matta(self) -> bool {
        (self.0 as int / 65536) % 2 == 1
    }

    pub open spec fn spec_dst(self) -> Square {
        Square((self.0 as int % 128) as i32)
    }

    pub open spec fn spec_src(self) -> Square {
        Square(self.from_field() as i32)
    }

    /// The kind that a drop puts on the board.
    pub open spec fn dropped(self) -> PieceKind {
        PieceKind::of_value(self.from_field())
    }

    /// A move is valid when it is not both a drop and a promotion, its
    /// destination is on the board, and either it is a drop of a kind that
    /// can be held in hand, or its origin is another square of the board.
    pub open spec fn spec_is_valid(self) -> bool {
        &&& !(self.spec_is_drop() && self.spec_is_promotion())
        &&& self.spec_dst().on_board()
        &&& if self.spec_is_drop() {
            1 <= self.from_field() <= 7
        } else {
            self.spec_src().on_board() && self.spec_src() != self.spec_dst()
        }
    }

    /// The move from `src` to `dst` without promotion.
    pub fn new_walk(src: Square, dst: Square) -> (r: Move)
        requires
            src.on_board(),
            dst.on_board(),
            src != dst,
        ensures
            r.0 == dst.0 + 128 * src.0,
            r.spec_is_valid(),
            !r.spec_is_drop(),
            !r.spec_is_promotion(),
            !r.spec_is_matta(),
            r.spec_src() == src,
            r.spec_dst() == dst,
    {
        Move(dst.0 as u32 + 128 * (src.0 as u32))
    }

    /// The move from `src` to `dst` with promotion.
    pub fn new_walk_promotion(src: Square, dst: Square) -> (r: Move)
        requires
            src.on_board(),
            dst.on_board(),
            src != dst,
        ensures
            r.0 == dst.0 + 128 * src.0 + 32768,
            r.spec_is_valid(),
            !r.spec_is_drop(),
            r.spec_is_promotion(),
            !r.spec_is_matta(),
            r.spec_src() == src,
            r.spec_dst() == dst,
    {
        Move(dst.0 as u32 + 128 * (src.0 as u32) + 32768)
    }

    /// The drop of kind `pk` on `dst`.
    pub fn new_drop(pk: PieceKind, dst: Square) -> (r: Move)
        requires
            pk.is_hand(),
            dst.on_board(),
        ensures
            r.0 == dst.0 + 128 * pk.value() + 16384,
            r.spec_is_valid(),
            r.spec_is_drop(),
            !r.spec_is_promotion(),
            !r.spec_is_matta(),
            r.dropped() == pk,
            r.spec_dst() == dst,
    {
        Move(dst.0 as u32 + 128 * pk.inner() + 16384)
    }

    /// The same move, marked as a take-back.
    pub fn new_matta(mv: Move) -> (r: Move)
        requires
            mv.0 < 65536,
        ensures
            r.0 == mv.0 + 65536,
            r.spec_is_matta(),
            r.spec_is_drop() == mv.spec_is_drop(),
            r.spec_is_promotion() == mv.spec_is_promotion(),
            r.from_field() == mv.from_field(),
            r.spec_dst() == mv.spec_dst(),
            r.spec_is_valid() == mv.spec_is_valid(),
    {
        Move(mv.0 + 65536)
    }

    /// Whether the move is valid by itself; no board is looked at.
    #[verifier::when_used_as_spec(spec_is_valid)]
    pub fn is_valid(self) -> (r: bool)
        ensures
            r == self.spec_is_valid(),
    {
        if self.is_drop() && self.is_promotion() {
            return false;
        }
        let dst: Square = self.dst();
        let f: u32 = (self.0 / 128) % 128;
        if self.is_drop() {
            1 <= f && f <= 7 && dst.is_on_board()
        } else {
            let src: Square = Square(f as i32);
            src.0 != dst.0 && src.is_on_board() && dst.is_on_board()
        }
    }

    /// Whether the move is a drop.
    #[verifier::when_used_as_spec(spec_is_drop)]
    pub fn is_drop(self) -> (r: bool)
        ensures
            r == self.spec_is_drop(),
    {
        (self.0 / 16384) % 2 == 1
    }

    /// Whether the move is a promotion.
    #[verifier::when_used_as_spec(spec_is_promotion)]
    pub fn is_promotion(self) -> (r: bool)
        ensures
            r == self.spec_is_promotion(),
    {
        (self.0 / 32768) % 2 == 1
    }

    /// Whether the move is marked as a take-back.
    #[verifier::when_used_as_spec(spec_is_matta)]
    pub fn is_matta(self) -> (r: bool)
        ensures
            r == self.spec_is_matta(),
    {
        (self.0 / 65536) % 2 == 1
    }

    /// The destination square.
    #[verifier::when_used_as_spec(spec_dst)]
    pub fn dst(self) -> (r: Square)
        ensures
            r == self.spec_dst(),
    {
        Square((self.0 % 128) as i32)
    }

    /// The origin square of a move that is not a drop.
    #[verifier::when_used_as_spec(spec_src)]
    pub fn src(self) -> (r: Square)
        requires
            !self.is_drop(),
        ensures
            r == self.spec_src(),
    {
        Square(((self.0 / 128) % 128) as i32)
    }

    /// The kind that a valid drop puts on the board.
    pub fn dropped_piece_kind(self) -> (r: PieceKind)
        requires
            self.is_drop(),
            self.from_field() <= 14,
        ensures
            r == self.dropped(),
    {
        PieceKind::from_inner((self.0 / 128) % 128)
    }
}

/// A move together with what is needed to take it back.
#[derive(Clone, Copy, Debug, PartialEq, Eq, Structural, Hash)]
pub struct UndoableMove(pub u32);

impl UndoableMove {
    /// The field in bits 7-13.
    pub open spec fn from_field(self) -> int {
        (self.0 as int / 128) % 128
    }

    /// The field in bits 16-20.
    pub open spec fn src_piece_field(self) -> int {
        (self.0 as int / 65536) % 32
    }

    /// The field in bits 21-25.
    pub open spec fn captured_field(self) -> int {
        (self.0 as int / 2097152) % 32
    }

    pub open spec fn spec_is_drop(self) -> bool {
        (self.0 as int / 16384) % 2 == 1
    }

    pub open spec fn spec_is_promotion(self) -> bool {
        (self.0 as int / 32768) % 2 == 1
    }

    pub open spec fn spec_dst(self) -> Square {
        Square((self.0 as int % 128) as i32)
    }

    pub open spec fn spec_src(self) -> Square {
        Square(self.from_field() as i32)
    }

    /// The kind that a drop puts on the board.
    pub open spec fn dropped(self) -> PieceKind {
        PieceKind::of_value(self.from_field())
    }

    pub open spec fn spec_piece_src(self) -> Piece {
        piece_of_value(self.src_piece_field())
    }

    pub open spec fn spec_piece_captured(self) -> Piece {
        piece_of_value(self.captured_field())
    }

    /// The piece that stands on the destination after the move.
    pub open spec fn spec_piece_dst(self) -> Piece {
        if self.spec_is_promotion() {
            self.spec_piece_src().promoted()
        } else {
            self.spec_piece_src()
        }
    }

    /// The move without what is needed to take it back.
    pub open spec fn spec_to_move(self) -> Move {
        Move((self.0 % 65536) as u32)
    }

    /// An undoable move is valid when it is not both a drop and a
    /// promotion, its destination is on the board, and either it is a drop
    /// of a kind that can be held in hand and captures nothing, or its
    /// origin is another square of the board, the piece that moved is a
    /// piece, and what it captured, if anything, is a piece of the other
    /// side that is no king.
    pub open spec fn spec_is_valid(self) -> bool {
        &&& !(self.spec_is_drop() && self.spec_is_promotion())
        &&& self.spec_dst().on_board()
        &&& if self.spec_is_drop() {
            1 <= self.from_field() <= 7 && self.captured_field() == 0
        } else {
            &&& self.spec_src().on_board()
            &&& self.spec_src() != self.spec_dst()
            &&& piece_value_ok(self.src_piece_field())
            &&& self.src_piece_field() != 0
            &&& piece_value_ok(self.captured_field())
            &&& self.captured_field() != 0 ==> {
                &&& self.spec_piece_captured().spec_kind() != PieceKind::King
                &&& self.spec_piece_captured().spec_side() != self.spec_piece_src().spec_side()
            }
        }
    }

    /// The undoable form of a move that is not a drop: `pc_src` moved, and
    /// `pc_captured` was taken ("no piece" when nothing was).
    pub fn from_move_walk(mv: Move, pc_src: Piece, pc_captured: Piece) -> (r: UndoableMove)
        ensures
            r.0 == mv.0 % 65536 + 65536 * pc_src.value() + 2097152 * pc_captured.value(),
            r.spec_is_drop() == mv.spec_is_drop(),
            r.spec_is_promotion() == mv.spec_is_promotion(),
            r.spec_dst() == mv.spec_dst(),
            r.from_field() == mv.from_field(),
            r.spec_piece_src() == pc_src,
            r.spec_piece_captured() == pc_captured,
            r.src_piece_field() == pc_src.value(),
            r.captured_field() == pc_captured.value(),
            r.spec_to_move().0 == mv.0 % 65536,
    {
        proof {
            lemma_move_low(mv.0);
            lemma_move_fields((mv.0 % 65536) as u32, pc_src.value() as u32, pc_captured.value() as u32);
        }
        UndoableMove(mv.0 % 65536 + 65536 * pc_src.inner() + 2097152 * pc_captured.inner())
    }

    /// The undoable form of a drop, which needs nothing more.
    pub fn from_move_drop(mv: Move) -> (r: UndoableMove)
        ensures
            r.0 == mv.0 % 65536,
            r.spec_is_drop() == mv.spec_is_drop(),
            r.spec_is_promotion() == mv.spec_is_promotion(),
            r.spec_dst() == mv.spec_dst(),
            r.from_field() == mv.from_field(),
            r.captured_field() == 0,
            r.src_piece_field() == 0,
            r.spec_to_move().0 == mv.0 % 65536,
    {
        proof {
            lemma_move_low(mv.0);
        }
        UndoableMove(mv.0 % 65536)
    }

    /// Whether the move is valid by itself; no board is looked at.
    #[verifier::when_used_as_spec(spec_is_valid)]
    pub fn is_valid(self) -> (r: bool)
        ensures
            r == self.spec_is_valid(),
    {
        if self.is_drop() && self.is_promotion() {
            return false;
        }
        let dst: Square = self.dst();
        let f: u32 = (self.0 / 128) % 128;
        let ps: u32 = (self.0 / 65536) % 32;
        let pc: u32 = (self.0 / 2097152) % 32;
        if self.is_drop() {
            1 <= f && f <= 7 && dst.is_on_board() && pc == 0
        } else {
            let src: Square = Square(f as i32);
            if src.0 == dst.0 || !src.is_on_board() || !dst.is_on_board() {
                return false;
            }
            if ps == 0 || ps == 15 || ps == 16 || ps == 31 {
                return false;
            }
            if pc == 15 || pc == 16 || pc == 31 {
                return false;
            }
            if pc != 0 {
                if pc % 16 == 8 {
                    return false;
                }
                if pc / 16 == ps / 16 {
                    return false;
                }
            }
            true
        }
    }

    /// Whether the move is a drop.
    #[verifier::when_used_as_spec(spec_is_drop)]
    pub fn is_drop(self) -> (r: bool)
        ensures
            r == self.spec_is_drop(),
    {
        (self.0 / 16384) % 2 == 1
    }

    /// Whether the move is a promotion.
    #[verifier::when_used_as_spec(spec_is_promotion)]
    pub fn is_promotion(self) -> (r: bool)
        ensures
            r == self.spec_is_promotion(),
    {
        (self.0 / 32768) % 2 == 1
    }

    /// The destination square.
    #[verifier::when_used_as_spec(spec_dst)]
    pub fn dst(self) -> (r: Square)
        ensures
            r == self.spec_dst(),
    {
        Square((self.0 % 128) as i32)
    }

    /// The origin square of a move that is not a drop.
    #[verifier::when_used_as_spec(spec_src)]
    pub fn src(self) -> (r: Square)
        requires
            !self.is_drop(),
        ensures
            r == self.spec_src(),
    {
        Square(((self.0 / 128) % 128) as i32)
    }

    /// The piece that moved, before any promotion; not for a drop.
    #[verifier::when_used_as_spec(spec_piece_src)]
    pub fn piece_src(self) -> (r: Piece)
        requires
            !self.is_drop(),
            piece_value_ok(self.src_piece_field()),
        ensures
            r == self.spec_piece_src(),
            r.value() == self.src_piece_field(),
    {
        Piece::from_inner((self.0 / 65536) % 32)
    }

    /// The piece that was captured, or "no piece".
    #[verifier::when_used_as_spec(spec_piece_captured)]
    pub fn piece_captured(self) -> (r: Piece)
        requires
            piece_value_ok(self.captured_field()),
        ensures
            r == self.spec_piece_captured(),
            r.value() == self.captured_field(),
    {
        Piece::from_inner((self.0 / 2097152) % 32)
    }

    /// The piece that stands on the destination after the move; not for a
    /// drop.
    #[verifier::when_used_as_spec(spec_piece_dst)]
    pub fn piece_dst(self) -> (r: Piece)
        requires
            !self.is_drop(),
            piece_value_ok(self.src_piece_field()),
            self.is_promotion() ==> self.spec_piece_src().is_promotable(),
        ensures
            r == self.spec_piece_dst(),
    {
        let pc_src: Piece = self.piece_src();
        if self.is_promotion() {
            pc_src.to_promoted()
        } else {
            pc_src
        }
    }

    /// The kind that a valid drop put on the board.
    pub fn dropped_piece_kind(self) -> (r: PieceKind)
        requires
            self.is_drop(),
            self.from_field() <= 14,
        ensures
            r == self.dropped(),
    {
        PieceKind::from_inner((self.0 / 128) % 128)
    }

    /// The move without what is needed to take it back.
    #[verifier::when_used_as_spec(spec_to_move)]
    pub fn to_move(self) -> (r: Move)
        ensures
            r == self.spec_to_move(),
            r.spec_is_drop() == self.spec_is_drop(),
            r.spec_is_promotion() == self.spec_is_promotion(),
            r.spec_dst() == self.spec_dst(),
            r.from_field() == self.from_field(),
            !r.spec_is_matta(),
    {
        proof {
            lemma_move_low(self.0);
        }
        Move(self.0 % 65536)
    }
}

} // verus!
