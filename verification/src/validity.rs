//! Run-time tests of what the operations ask of their callers.
//!
//! The operations on positions and engines state in `requires` what must
//! hold when they are called.  Verified callers prove it; other callers
//! can test it with the functions of this module, each of which computes
//! exactly the condition of the same name.

use vstd::prelude::*;
use crate::shogi::{Side, Square};
use crate::piece::{Piece, PieceKind};
use crate::moves::UndoableMove;
use crate::board::{Board, Hand, Hands};
use crate::bitboard::Bitboard;
use crate::effect::{EffectCountBoard, RangedEffectBoard};
use crate::position::{count_side, hand_total, king_at, lemma_position_determined, Position};
use crate::book::{unused, BookState};
use crate::engine::{lemma_before, Engine, EngineResponse, EngineUndoInfo};

verus! {

/// Whether the king of `side` stands on exactly one square of the board.
pub fn has_one_king(board: &Board, side: Side) -> (r: bool)
    ensures
        r == exists|k: Square| king_at(board@, side, k),
{
    let king: Piece = Piece::new(side, PieceKind::King);
    let mut n: u32 = 0;
    let mut first: usize = 0;
    let ghost mut second: int = 0;
    let mut i: usize = 0;
    while i < 81
        invariant
            i <= 81,
            n <= 2,
            king == Piece::of(side, PieceKind::King),
            n == 0 ==> forall|q: int| 0 <= q < i ==> board@[q] != king,
            n >= 1 ==> first < i && board@[first as int] == king,
            n == 1 ==> forall|q: int| 0 <= q < i && board@[q] == king ==> q == first,
            n == 2 ==> 0 <= second < i && second != first && board@[second] == king,
        decreases 81 - i,
    {
        if board.get(Square(i as i32)) == king {
            if n == 0 {
                first = i;
                n = 1;
            } else if n == 1 {
                proof {
                    second = i as int;
                }
                n = 2;
            }
        }
        i += 1;
    }
    proof {
        if n == 1 {
            assert(king_at(board@, side, Square(first as i32)));
        } else {
            assert forall|k: Square| !king_at(board@, side, k) by {
                if king_at(board@, side, k) {
                    if n == 2 {
                        assert(first == k.0);
                        assert(second == k.0);
                    }
                }
            }
        }
    }
    n == 1
}

/// The number of pieces of `side` on the board.
pub fn count_pieces(board: &Board, side: Side) -> (r: u32)
    ensures
        r == count_side(board@, side, 81),
        r <= 81,
{
    let mut n: u32 = 0;
    let mut i: usize = 0;
    while i < 81
        invariant
            i <= 81,
            n <= i,
            n == count_side(board@, side, i as int),
        decreases 81 - i,
    {
        let pc: Piece = board.get(Square(i as i32));
        if pc.is_piece() && pc.side() == side {
            n = n + 1;
        }
        i += 1;
    }
    n
}

/// The number of pieces in a hand.
pub fn hand_size(hand: &Hand) -> (r: u64)
    ensures
        r == hand_total(*hand),
{
    let mut n: u64 = 0;
    let mut k: u32 = 1;
    while k <= 7
        invariant
            1 <= k <= 8,
            n <= (k - 1) * 0xffff_ffff,
            k == 1 ==> n == 0,
            k == 2 ==> n == hand@[1],
            k == 3 ==> n == hand@[1] + hand@[2],
            k == 4 ==> n == hand@[1] + hand@[2] + hand@[3],
            k == 5 ==> n == hand@[1] + hand@[2] + hand@[3] + hand@[4],
            k == 6 ==> n == hand@[1] + hand@[2] + hand@[3] + hand@[4] + hand@[5],
            k == 7 ==> n == hand@[1] + hand@[2] + hand@[3] + hand@[4] + hand@[5] + hand@[6],
            k == 8 ==> n == hand_total(*hand),
        decreases 8 - k,
    {
        n = n + hand.get(PieceKind::from_inner(k)) as u64;
        k += 1;
    }
    n
}

/// Whether a position can be built from this board and these hands.
pub fn is_buildable(board: &Board, hands: &Hands) -> (r: bool)
    ensures
        r == Position::buildable(board@, *hands),
{
    if !has_one_king(board, Side::Hum) || !has_one_king(board, Side::Com) {
        return false;
    }
    let on_board: u64 = count_pieces(board, Side::Hum) as u64 + count_pieces(board, Side::Com) as u64;
    let hum: Hand = hands.get(Side::Hum);
    let com: Hand = hands.get(Side::Com);
    let in_hand: u64 = hand_size(&hum) + hand_size(&com);
    on_board + in_hand <= 0xffff_ffff
}

/// Whether two sets of squares are the same.
pub fn same_bitboard(a: Bitboard, b: Bitboard) -> (r: bool)
    ensures
        r == (a == b),
{
    a.lo == b.lo && a.hi == b.hi
}

/// Whether two boards of attack counts are the same.
pub fn same_counts(a: &EffectCountBoard, b: &EffectCountBoard) -> (r: bool)
    ensures
        r == (*a == *b),
{
    let mut i: usize = 0;
    while i < 81
        invariant
            i <= 81,
            forall|j: int| 0 <= j < i ==> a.0@[j] == b.0@[j],
        decreases 81 - i,
    {
        if a.0[i] != b.0[i] {
            return false;
        }
        i += 1;
    }
    assert(a.0 =~= b.0);
    true
}

/// Whether two boards of ray directions are the same.
pub fn same_rays(a: &RangedEffectBoard, b: &RangedEffectBoard) -> (r: bool)
    ensures
        r == (*a == *b),
{
    let mut i: usize = 0;
    while i < 81
        invariant
            i <= 81,
            forall|j: int| 0 <= j < i ==> a.0@[j] == b.0@[j],
        decreases 81 - i,
    {
        if a.0[i].0 != b.0[i].0 {
            return false;
        }
        i += 1;
    }
    assert(a.0 =~= b.0);
    true
}

/// Whether the occupancy sets of two positions are the same.
pub fn same_occupancy(p: &Position, q: &Position) -> (r: bool)
    ensures
        r == (p.bb_occ == q.bb_occ && p.bb_occ_side == q.bb_occ_side && p.bb_pk == q.bb_pk),
{
    if !same_bitboard(p.bb_occ, q.bb_occ) {
        return false;
    }
    if !same_bitboard(p.bb_occ_side[0], q.bb_occ_side[0]) || !same_bitboard(
        p.bb_occ_side[1],
        q.bb_occ_side[1],
    ) {
        return false;
    }
    assert(p.bb_occ_side =~= q.bb_occ_side);
    let mut k: usize = 0;
    while k < 15
        invariant
            k <= 15,
            forall|j: int| 0 <= j < k ==> p.bb_pk@[j] == q.bb_pk@[j],
        decreases 15 - k,
    {
        if !same_bitboard(p.bb_pk[k], q.bb_pk[k]) {
            return false;
        }
        k += 1;
    }
    assert(p.bb_pk =~= q.bb_pk);
    true
}

impl Position {
    /// Whether the two positions are the same in every part.
    pub fn same(&self, other: &Position) -> (r: bool)
        ensures
            r == (*self == *other),
    {
        if !same_occupancy(self, other) {
            return false;
        }
        if !same_counts(&self.effect_counts[0], &other.effect_counts[0]) || !same_counts(
            &self.effect_counts[1],
            &other.effect_counts[1],
        ) {
            return false;
        }
        assert(self.effect_counts =~= other.effect_counts);
        if !same_rays(&self.ranged_effects, &other.ranged_effects) {
            return false;
        }
        if !self.board.same(&other.board) {
            return false;
        }
        assert(self.board.0 =~= other.board.0);
        if !self.hands.get(Side::Hum).same(&other.hands.get(Side::Hum)) || !self.hands.get(
            Side::Com,
        ).same(&other.hands.get(Side::Com)) {
            return false;
        }
        assert(self.hands.0@[0].0 =~= other.hands.0@[0].0);
        assert(self.hands.0@[1].0 =~= other.hands.0@[1].0);
        assert(self.hands.0 =~= other.hands.0);
        if self.side_to_move != other.side_to_move || self.ply != other.ply {
            return false;
        }
        if self.king_sq[0].0 != other.king_sq[0].0 || self.king_sq[1].0 != other.king_sq[1].0 {
            return false;
        }
        assert(self.king_sq =~= other.king_sq);
        self.com_nonking_count == other.com_nonking_count
    }

    /// A copy of the position.
    pub fn copy(&self) -> (r: Position)
        ensures
            r == *self,
    {
        let r: Position = Position {
            bb_occ: self.bb_occ,
            bb_occ_side: self.bb_occ_side,
            bb_pk: self.bb_pk,
            effect_counts: [
                EffectCountBoard(self.effect_counts[0].0),
                EffectCountBoard(self.effect_counts[1].0),
            ],
            ranged_effects: RangedEffectBoard(self.ranged_effects.0),
            board: Board(self.board.0),
            hands: self.hands,
            side_to_move: self.side_to_move,
            ply: self.ply,
            king_sq: self.king_sq,
            com_nonking_count: self.com_nonking_count,
        };
        assert(r.effect_counts =~= self.effect_counts);
        r
    }

    /// Whether the position is consistent: every derived part is what a
    /// count over board and hands gives.
    pub fn is_consistent(&self) -> (r: bool)
        ensures
            r == self.wf(),
    {
        if self.ply == 0 {
            return false;
        }
        if !is_buildable(&self.board, &self.hands) {
            proof {
                if self.wf() {
                    assert(king_at(self.board@, Side::Hum, self.king_sq@[0]));
                    assert(king_at(self.board@, Side::Com, self.king_sq@[1]));
                }
            }
            return false;
        }
        let mut fresh: Position = Position::new(self.side_to_move, Board(self.board.0), self.hands);
        fresh.ply = self.ply;
        let r: bool = self.same(&fresh);
        proof {
            assert(fresh.wf());
            if self.wf() {
                lemma_position_determined(*self, fresh);
            }
        }
        r
    }

    /// Whether `umv` can be taken back in this position.
    pub fn is_undoable(&self, umv: UndoableMove) -> (r: bool)
        ensures
            r == self.undoable(umv),
    {
        if !umv.is_valid() || self.ply < 2 {
            return false;
        }
        let us: Side = self.side_to_move.inv();
        let pc_dst: Piece = self.board.get(umv.dst());
        if umv.is_drop() {
            pc_dst == Piece::new(us, umv.dropped_piece_kind())
        } else {
            let pc_src: Piece = umv.piece_src();
            let pc_cap: Piece = umv.piece_captured();
            if self.board.get(umv.src()) != Piece::NoPiece {
                return false;
            }
            if pc_src.side() != us {
                return false;
            }
            if umv.is_promotion() && !pc_src.is_promotable() {
                return false;
            }
            if pc_dst != umv.piece_dst() {
                return false;
            }
            if pc_cap == Piece::NoPiece {
                return true;
            }
            self.hands.get(us).get(pc_cap.to_raw_kind()) > 0
        }
    }
}

/// Whether no bit of `mask` from place `n` on is set.
pub fn mask_fits(mask: u32, n: usize) -> (r: bool)
    requires
        n <= 32,
    ensures
        r == forall|i: int| unused(mask, i) ==> i < n,
{
    let mut i: u32 = n as u32;
    while i < 32
        invariant
            n <= i <= 32,
            forall|j: int| n <= j < i ==> !unused(mask, j),
        decreases 32 - i,
    {
        if (mask >> i) & 1 == 1 {
            assert(unused(mask, i as int));
            return false;
        }
        i += 1;
    }
    true
}

impl BookState {
    /// Whether the state is consistent: only entries that exist are marked
    /// as not used.
    pub fn is_consistent(&self) -> (r: bool)
        ensures
            r == self.wf(),
    {
        if self.formation.is_nothing() {
            return true;
        }
        proof {
            crate::book::lemma_tables(self.formation);
        }
        let branches: usize = self.formation.book_branch().len();
        let moves: usize = self.formation.book_moves().len();
        mask_fits(self.mask_unused_branch, branches) && mask_fits(self.mask_unused_moves, moves)
    }
}

impl Engine {
    /// Whether the engine is consistent.
    pub fn is_consistent(&self) -> (r: bool)
        ensures
            r == self.wf(),
    {
        if !self.pos.is_consistent() || !self.book_state.is_consistent() {
            return false;
        }
        if self.progress_ply > 100 || self.progress_level > 3 {
            return false;
        }
        if self.progress_level >= 2 && self.progress_ply < 51 {
            return false;
        }
        if self.progress_level == 3 && self.progress_ply < 71 {
            return false;
        }
        if self.progress_level == 0 {
            self.progress_level_sub < 5 && !self.book_state.formation.is_nothing()
        } else {
            true
        }
    }

    /// Whether the step that `resp` records can be taken back.
    pub fn can_take_back(&self, resp: &EngineResponse) -> (r: bool)
        ensures
            r == self.can_undo(*resp),
    {
        if !self.pos.is_consistent() {
            return false;
        }
        let info: EngineUndoInfo = resp.undo_info();
        match resp.move_com() {
            Some(umv_com) => {
                if !self.pos.is_undoable(umv_com) {
                    return false;
                }
                let mut p: Position = self.pos.copy();
                p.undo_move(umv_com);
                proof {
                    lemma_before(self.pos, umv_com, p);
                }
                p.is_undoable(info.umv_hum)
            },
            None => self.pos.is_undoable(info.umv_hum),
        }
    }
}

} // verus!
