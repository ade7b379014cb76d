//! A position: board, hands, side to move, and what is derived from them.
//!
//! The derived parts (occupancy sets, king squares, attack counts, ray
//! directions, the number of COM's pieces besides its king) are functions
//! of the board and the hands; `wf` says so, every operation keeps it, and
//! so a move followed by its undoing gives the very same position back.
//!
//! A new position counts the attacks square by square.  A move and its
//! undoing do not count again: they change the counts and ray directions
//! along the lines that leave the squares whose piece changes, and `wf`
//! says that this gives what a new count would give.

use vstd::prelude::*;
use crate::shogi::{Side, Square};
use crate::piece::{Piece, PieceKind};
use crate::moves::{Move, UndoableMove};
use crate::board::{Board, Hand, Hands};
use crate::bitboard::Bitboard;
use crate::effect::{EffectCountBoard, RangedEffectBoard, DirectionSetPair};
use crate::attack::{attack_count, ray_pair, b2i, count_attacks};
use crate::effect_update::{agree, update_effect};

verus! {

/// The number of pieces of `s` on the first `n` squares of `b`.
pub open spec fn count_side(b: Seq<Piece>, s: Side, n: int) -> int
    decreases n,
{
    if n <= 0 {
        0
    } else {
        count_side(b, s, n - 1) + b2i(b[n - 1].is_of(s))
    }
}

/// The number of pieces in a hand.
pub open spec fn hand_total(h: Hand) -> int {
    h@[1] + h@[2] + h@[3] + h@[4] + h@[5] + h@[6] + h@[7]
}

/// The number of pieces on the board and in the hands.
pub open spec fn material(b: Seq<Piece>, hands: Hands) -> int {
    count_side(b, Side::Hum, 81) + count_side(b, Side::Com, 81) + hand_total(hands.of(Side::Hum))
        + hand_total(hands.of(Side::Com))
}

/// The king of `s` stands on `k` and nowhere else.
pub open spec fn king_at(b: Seq<Piece>, s: Side, k: Square) -> bool {
    &&& k.on_board()
    &&& b[k.0 as int] == Piece::of(s, PieceKind::King)
    &&& forall|q: int| 0 <= q < 81 && b[q] == Piece::of(s, PieceKind::King) ==> q == k.0
}

/// A count never exceeds the number of squares counted.
pub proof fn lemma_count_bound(b: Seq<Piece>, s: Side, n: int)
    requires
        0 <= n,
    ensures
        0 <= count_side(b, s, n) <= n,
        count_side(b, Side::Hum, n) + count_side(b, Side::Com, n) <= n,
    decreases n,
{
    if n > 0 {
        lemma_count_bound(b, s, n - 1);
        lemma_count_bound(b, Side::Hum, n - 1);
        lemma_count_bound(b, Side::Com, n - 1);
    }
}

/// How a count changes when one square changes.
pub proof fn lemma_count_update(b: Seq<Piece>, s: Side, i: int, pc: Piece, n: int)
    requires
        0 <= i < b.len(),
        0 <= n <= b.len(),
    ensures
        count_side(b.update(i, pc), s, n) == count_side(b, s, n) + (if i < n {
            b2i(pc.is_of(s)) - b2i(b[i].is_of(s))
        } else {
            0
        }),
    decreases n,
{
    if n > 0 {
        lemma_count_update(b, s, i, pc, n - 1);
    }
}

/// A side with a piece on the board has a positive count.
pub proof fn lemma_count_positive(b: Seq<Piece>, s: Side, i: int, n: int)
    requires
        0 <= i < n,
        b[i].is_of(s),
    ensures
        count_side(b, s, n) >= 1,
    decreases n,
{
    lemma_count_bound(b, s, n - 1);
    if i < n - 1 {
        lemma_count_positive(b, s, i, n - 1);
    }
}

/// A position.
#[derive(Clone, Debug)]
pub struct Position {
    /// The occupied squares.
    pub bb_occ: Bitboard,
    /// The squares occupied by each side.
    pub bb_occ_side: [Bitboard; 2],
    /// The squares occupied by each kind, of either side.
    pub bb_pk: [Bitboard; 15],
    /// The attack counts of each side.
    pub effect_counts: [EffectCountBoard; 2],
    /// The ray directions of both sides on each square.
    pub ranged_effects: RangedEffectBoard,
    pub board: Board,
    pub hands: Hands,
    pub side_to_move: Side,
    /// The number of the next move, starting at 1.
    pub ply: u32,
    /// The king square of each side.
    pub king_sq: [Square; 2],
    /// The number of COM's pieces on the board and in hand, without its
    /// king.
    pub com_nonking_count: u32,
}

impl Position {
    /// The occupancy sets agree with the board.
    pub open spec fn bb_ok(&self) -> bool {
        &&& self.bb_occ.spec_is_valid()
        &&& forall|q: int| self.bb_occ.has(q) == (0 <= q < 81 && self.board@[q].is_piece())
        &&& forall|i: int| 0 <= i < 2 ==> (#[trigger] self.bb_occ_side@[i]).spec_is_valid()
        &&& forall|i: int, q: int|
            0 <= i < 2 ==> (#[trigger] self.bb_occ_side@[i].has(q)) == (0 <= q < 81
                && self.board@[q].is_piece() && self.board@[q].spec_side().index() == i)
        &&& forall|k: int| 0 <= k < 15 ==> (#[trigger] self.bb_pk@[k]).spec_is_valid()
        &&& forall|k: int, q: int|
            0 <= k < 15 ==> (#[trigger] self.bb_pk@[k].has(q)) == (0 <= q < 81
                && self.board@[q].is_piece() && self.board@[q].spec_kind().value() == k)
    }

    /// The attack counts and ray directions agree with the board `b`.
    pub open spec fn effects_for(&self, b: Seq<Piece>) -> bool {
        &&& forall|q: int|
            0 <= q < 81 ==> (#[trigger] self.effect_counts@[0]@[q]) == attack_count(b, Side::Hum, q)
        &&& forall|q: int|
            0 <= q < 81 ==> (#[trigger] self.effect_counts@[1]@[q]) == attack_count(b, Side::Com, q)
        &&& forall|q: int| 0 <= q < 81 ==> (#[trigger] self.ranged_effects@[q]) == ray_pair(b, q)
    }

    /// The attack counts and ray directions agree with the board.
    pub open spec fn effects_ok(&self) -> bool {
        self.effects_for(self.board@)
    }

    /// Each side has one king, and the king squares point at them.
    pub open spec fn kings_ok(&self) -> bool {
        &&& king_at(self.board@, Side::Hum, self.king_sq@[0])
        &&& king_at(self.board@, Side::Com, self.king_sq@[1])
    }

    /// The piece count of COM agrees with board and hand, and the number of
    /// all pieces fits the counters.
    pub open spec fn counts_ok(&self) -> bool {
        &&& self.com_nonking_count == count_side(self.board@, Side::Com, 81) - 1 + hand_total(
            self.hands.of(Side::Com),
        )
        &&& material(self.board@, self.hands) <= u32::MAX
    }

    /// The position is consistent: every derived part is what board and
    /// hands make it.
    pub open spec fn wf(&self) -> bool {
        &&& self.bb_ok()
        &&& self.effects_ok()
        &&& self.kings_ok()
        &&& self.counts_ok()
        &&& self.ply >= 1
    }

    /// The attack count of `s` on the square with number `q`.
    pub open spec fn effect(&self, s: Side, q: int) -> int {
        self.effect_counts@[s.index()]@[q] as int
    }

    /// The king square of `s`.
    pub open spec fn king(&self, s: Side) -> Square {
        self.king_sq@[s.index()]
    }

    /// Whether a position can be built from this board and these hands:
    /// each side has exactly one king, and the number of all pieces fits the
    /// counters.
    pub open spec fn buildable(board: Seq<Piece>, hands: Hands) -> bool {
        &&& exists|k: Square| king_at(board, Side::Hum, k)
        &&& exists|k: Square| king_at(board, Side::Com, k)
        &&& material(board, hands) <= u32::MAX
    }

    /// Puts `pc` on the empty square `sq` and adds it to the occupancy sets.
    pub fn put_piece(&mut self, sq: Square, pc: Piece)
        requires
            old(self).bb_ok(),
            sq.on_board(),
            pc.is_piece(),
            old(self).board@[sq.0 as int] == Piece::NoPiece,
        ensures
            final(self).bb_ok(),
            final(self).board@ == old(self).board@.update(sq.0 as int, pc),
            final(self).hands == old(self).hands,
            final(self).side_to_move == old(self).side_to_move,
            final(self).ply == old(self).ply,
            final(self).king_sq == old(self).king_sq,
            final(self).com_nonking_count == old(self).com_nonking_count,
            final(self).effect_counts == old(self).effect_counts,
            final(self).ranged_effects == old(self).ranged_effects,
    {
        self.board.set(sq, pc);
        self.xor_piece(sq, pc);
    }

    /// Takes the piece on `sq` off the board and out of the occupancy sets.
    pub fn remove_piece(&mut self, sq: Square)
        requires
            old(self).bb_ok(),
            sq.on_board(),
            old(self).board@[sq.0 as int].is_piece(),
        ensures
            final(self).bb_ok(),
            final(self).board@ == old(self).board@.update(sq.0 as int, Piece::NoPiece),
            final(self).hands == old(self).hands,
            final(self).side_to_move == old(self).side_to_move,
            final(self).ply == old(self).ply,
            final(self).king_sq == old(self).king_sq,
            final(self).com_nonking_count == old(self).com_nonking_count,
            final(self).effect_counts == old(self).effect_counts,
            final(self).ranged_effects == old(self).ranged_effects,
    {
        let pc: Piece = self.board.get(sq);
        self.board.set(sq, Piece::NoPiece);
        self.xor_piece(sq, pc);
    }

    /// Flips `sq` in the three occupancy sets that `pc` belongs to.
    pub fn xor_piece(&mut self, sq: Square, pc: Piece)
        requires
            sq.on_board(),
            pc.is_piece(),
            old(self).bb_occ.spec_is_valid(),
            forall|i: int| 0 <= i < 2 ==> (#[trigger] old(self).bb_occ_side@[i]).spec_is_valid(),
            forall|k: int| 0 <= k < 15 ==> (#[trigger] old(self).bb_pk@[k]).spec_is_valid(),
        ensures
            final(self).bb_occ.spec_is_valid(),
            forall|i: int| 0 <= i < 2 ==> (#[trigger] final(self).bb_occ_side@[i]).spec_is_valid(),
            forall|k: int| 0 <= k < 15 ==> (#[trigger] final(self).bb_pk@[k]).spec_is_valid(),
            forall|q: int| final(self).bb_occ.has(q) == (old(self).bb_occ.has(q) != (q == sq.0)),
            forall|i: int, q: int|
                0 <= i < 2 ==> (#[trigger] final(self).bb_occ_side@[i].has(q)) == (old(
                    self,
                ).bb_occ_side@[i].has(q) != (q == sq.0 && i == pc.spec_side().index())),
            forall|k: int, q: int|
                0 <= k < 15 ==> (#[trigger] final(self).bb_pk@[k].has(q)) == (old(
                    self,
                ).bb_pk@[k].has(q) != (q == sq.0 && k == pc.spec_kind().value())),
            final(self).board == old(self).board,
            final(self).hands == old(self).hands,
            final(self).side_to_move == old(self).side_to_move,
            final(self).ply == old(self).ply,
            final(self).king_sq == old(self).king_sq,
            final(self).com_nonking_count == old(self).com_nonking_count,
            final(self).effect_counts == old(self).effect_counts,
            final(self).ranged_effects == old(self).ranged_effects,
    {
        let one: Bitboard = Bitboard::from_square(sq);
        let si: usize = pc.side().inner() as usize;
        let ki: usize = pc.kind().inner() as usize;
        self.bb_occ = self.bb_occ.xor(one);
        let a: Bitboard = self.bb_occ_side[si].xor(one);
        self.bb_occ_side[si] = a;
        let b: Bitboard = self.bb_pk[ki].xor(one);
        self.bb_pk[ki] = b;
    }

    /// Computes the attack counts and ray directions from the board.
    pub fn refresh_effects(&mut self)
        ensures
            final(self).effects_ok(),
            final(self).board == old(self).board,
            final(self).hands == old(self).hands,
            final(self).side_to_move == old(self).side_to_move,
            final(self).ply == old(self).ply,
            final(self).king_sq == old(self).king_sq,
            final(self).com_nonking_count == old(self).com_nonking_count,
            final(self).bb_occ == old(self).bb_occ,
            final(self).bb_occ_side == old(self).bb_occ_side,
            final(self).bb_pk == old(self).bb_pk,
    {
        let mut hum: [u8; 81] = [0u8; 81];
        let mut com: [u8; 81] = [0u8; 81];
        let mut rays: [DirectionSetPair; 81] = [DirectionSetPair(0); 81];
        let mut q: usize = 0;
        while q < 81
            invariant
                q <= 81,
                forall|j: int| 0 <= j < q ==> (#[trigger] hum@[j]) == attack_count(self.board@, Side::Hum, j),
                forall|j: int| 0 <= j < q ==> (#[trigger] com@[j]) == attack_count(self.board@, Side::Com, j),
                forall|j: int| 0 <= j < q ==> (#[trigger] rays@[j]) == ray_pair(self.board@, j),
            decreases 81 - q,
        {
            let (h, c, r) = count_attacks(&self.board, Square(q as i32));
            hum[q] = h;
            com[q] = c;
            rays[q] = r;
            q += 1;
        }
        self.effect_counts = [EffectCountBoard(hum), EffectCountBoard(com)];
        self.ranged_effects = RangedEffectBoard(rays);
    }

    /// Works the change of the piece on `sq` from `was` to `now` into the
    /// attack counts and the ray directions, along the lines that leave
    /// `sq`: counts and directions that agree with the board that has `was`
    /// on `sq` come to agree with the board that has `now` there.
    pub fn update_effect(&mut self, sq: Square, was: Piece, now: Piece)
        requires
            sq.on_board(),
            old(self).effects_for(old(self).board@.update(sq.0 as int, was)),
        ensures
            final(self).effects_for(old(self).board@.update(sq.0 as int, now)),
            final(self).board == old(self).board,
            final(self).hands == old(self).hands,
            final(self).side_to_move == old(self).side_to_move,
            final(self).ply == old(self).ply,
            final(self).king_sq == old(self).king_sq,
            final(self).com_nonking_count == old(self).com_nonking_count,
            final(self).bb_occ == old(self).bb_occ,
            final(self).bb_occ_side == old(self).bb_occ_side,
            final(self).bb_pk == old(self).bb_pk,
    {
        let mut hum: [u8; 81] = self.effect_counts[0].0;
        let mut com: [u8; 81] = self.effect_counts[1].0;
        let mut rays: [DirectionSetPair; 81] = self.ranged_effects.0;
        proof {
            assert(agree(hum@, com@, rays@, self.board@.update(sq.0 as int, was))) by {
                assert forall|q: int| 0 <= q < 81 implies (#[trigger] hum@[q]) == attack_count(
                    self.board@.update(sq.0 as int, was),
                    Side::Hum,
                    q,
                ) by {
                    assert(hum@[q] == self.effect_counts@[0]@[q]);
                }
                assert forall|q: int| 0 <= q < 81 implies (#[trigger] com@[q]) == attack_count(
                    self.board@.update(sq.0 as int, was),
                    Side::Com,
                    q,
                ) by {
                    assert(com@[q] == self.effect_counts@[1]@[q]);
                }
                assert forall|q: int| 0 <= q < 81 implies (#[trigger] rays@[q]) == ray_pair(
                    self.board@.update(sq.0 as int, was),
                    q,
                ) by {
                    assert(rays@[q] == self.ranged_effects@[q]);
                }
            }
        }
        update_effect(&self.board, sq, was, now, &mut hum, &mut com, &mut rays);
        self.effect_counts = [EffectCountBoard(hum), EffectCountBoard(com)];
        self.ranged_effects = RangedEffectBoard(rays);
    }

    /// Builds the position with `side_to_move` to play the first move.
    pub fn new(side_to_move: Side, board: Board, hands: Hands) -> (r: Position)
        requires
            Position::buildable(board@, hands),
        ensures
            r.wf(),
            r.board@ == board@,
            r.hands == hands,
            r.side_to_move == side_to_move,
            r.ply == 1,
    {
        let z: Bitboard = Bitboard::zero();
        let mut pos: Position = Position {
            bb_occ: z,
            bb_occ_side: [z; 2],
            bb_pk: [z; 15],
            effect_counts: [EffectCountBoard([0u8; 81]), EffectCountBoard([0u8; 81])],
            ranged_effects: RangedEffectBoard([DirectionSetPair(0); 81]),
            board: Board([Piece::NoPiece; 81]),
            hands,
            side_to_move,
            ply: 1,
            king_sq: [Square(0); 2],
            com_nonking_count: 0,
        };
        let mut com_count: u32 = 0;
        let mut i: usize = 0;
        let ghost kh = choose|k: Square| king_at(board@, Side::Hum, k);
        let ghost kc = choose|k: Square| king_at(board@, Side::Com, k);
        while i < 81
            invariant
                i <= 81,
                king_at(board@, Side::Hum, kh),
                king_at(board@, Side::Com, kc),
                pos.bb_ok(),
                pos.hands == hands,
                pos.side_to_move == side_to_move,
                pos.ply == 1,
                forall|j: int| 0 <= j < i ==> pos.board@[j] == board@[j],
                forall|j: int| i <= j < 81 ==> pos.board@[j] == Piece::NoPiece,
                com_count == count_side(board@, Side::Com, i as int),
                com_count <= i,
                forall|j: int|
                    0 <= j < i && board@[j] == Piece::HKing ==> pos.king_sq@[0] == Square(j as i32),
                forall|j: int|
                    0 <= j < i && board@[j] == Piece::CKing ==> pos.king_sq@[1] == Square(j as i32),
            decreases 81 - i,
        {
            let sq: Square = Square(i as i32);
            let pc: Piece = board.get(sq);
            if pc.is_piece() {
                pos.put_piece(sq, pc);
                match pc.side() {
                    Side::Hum => {},
                    Side::Com => {
                        com_count = com_count + 1;
                    },
                }
                if pc == Piece::HKing {
                    pos.king_sq[0] = sq;
                }
                if pc == Piece::CKing {
                    pos.king_sq[1] = sq;
                }
            }
            i += 1;
        }
        assert(pos.board@ =~= board@);
        proof {
            assert(pos.king_sq@[0] == kh);
            assert(pos.king_sq@[1] == kc);
            lemma_count_positive(board@, Side::Com, kc.0 as int, 81);
            lemma_count_bound(board@, Side::Hum, 81);
            lemma_count_bound(board@, Side::Com, 81);
        }
        let hc: Hand = hands.get(Side::Com);
        let total: u64 = hc.0[1] as u64 + hc.0[2] as u64 + hc.0[3] as u64 + hc.0[4] as u64
            + hc.0[5] as u64 + hc.0[6] as u64 + hc.0[7] as u64;
        let hh: Hand = hands.get(Side::Hum);
        assert(hand_total(hh) >= 0);
        pos.com_nonking_count = (com_count as u64 - 1 + total) as u32;
        pos.refresh_effects();
        pos
    }

    /// The number of the next move.
    pub fn ply(&self) -> (r: u32)
        ensures
            r == self.ply,
    {
        self.ply
    }

    /// The side to move.
    pub fn side_to_move(&self) -> (r: Side)
        ensures
            r == self.side_to_move,
    {
        self.side_to_move
    }

    /// The board.
    pub fn board(&self) -> (r: &Board)
        ensures
            *r == self.board,
    {
        &self.board
    }

    /// The hands of both sides.
    pub fn hands(&self) -> (r: &Hands)
        ensures
            *r == self.hands,
    {
        &self.hands
    }

    /// The hand of `side`.
    pub fn hand(&self, side: Side) -> (r: Hand)
        ensures
            r == self.hands.of(side),
    {
        self.hands.get(side)
    }

    /// The occupied squares.
    pub fn bb_occupied(&self) -> (r: Bitboard)
        ensures
            r == self.bb_occ,
            self.bb_ok() ==> r.spec_is_valid() && forall|q: int|
                r.has(q) == (0 <= q < 81 && self.board@[q].is_piece()),
    {
        self.bb_occ
    }

    /// The squares occupied by `side`.
    pub fn bb_occupied_side(&self, side: Side) -> (r: Bitboard)
        ensures
            r == self.bb_occ_side@[side.index()],
            self.bb_ok() ==> r.spec_is_valid() && forall|q: int|
                r.has(q) == (0 <= q < 81 && self.board@[q].is_of(side)),
    {
        proof {
            if self.bb_ok() {
                assert forall|q: int|
                    self.bb_occ_side@[side.index()].has(q) == (0 <= q < 81 && self.board@[q].is_of(
                        side,
                    )) by {}
            }
        }
        match side {
            Side::Hum => self.bb_occ_side[0],
            Side::Com => self.bb_occ_side[1],
        }
    }

    /// The squares occupied by pieces of kind `pk`, of either side.
    pub fn bb_piece_kind(&self, pk: PieceKind) -> (r: Bitboard)
        requires
            pk.is_piece(),
        ensures
            r == self.bb_pk@[pk.value()],
            self.bb_ok() ==> r.spec_is_valid() && forall|q: int|
                r.has(q) == (0 <= q < 81 && self.board@[q].is_piece() && self.board@[q].spec_kind()
                    == pk),
    {
        proof {
            if self.bb_ok() {
                assert forall|q: int|
                    self.bb_pk@[pk.value()].has(q) == (0 <= q < 81 && self.board@[q].is_piece()
                        && self.board@[q].spec_kind() == pk) by {}
            }
        }
        self.bb_pk[pk.inner() as usize]
    }

    /// The squares occupied by pieces of `side` and kind `pk`.
    pub fn bb_piece(&self, side: Side, pk: PieceKind) -> (r: Bitboard)
        requires
            pk.is_piece(),
        ensures
            self.bb_ok() ==> r.spec_is_valid() && forall|q: int|
                r.has(q) == (0 <= q < 81 && self.board@[q] == Piece::of(side, pk)),
    {
        self.bb_occupied_side(side).and(self.bb_piece_kind(pk))
    }

    /// The empty squares.
    pub fn bb_blank(&self) -> (r: Bitboard)
        requires
            self.bb_ok(),
        ensures
            r.spec_is_valid(),
            forall|q: int| r.has(q) == (0 <= q < 81 && self.board@[q] == Piece::NoPiece),
    {
        self.bb_occ.xor(Bitboard::all())
    }

    /// The attack counts of `side`.
    pub fn effect_count_board(&self, side: Side) -> (r: &EffectCountBoard)
        ensures
            *r == self.effect_counts@[side.index()],
    {
        match side {
            Side::Hum => &self.effect_counts[0],
            Side::Com => &self.effect_counts[1],
        }
    }

    /// The attack count of `side` on `sq`.
    pub fn effect_count(&self, side: Side, sq: Square) -> (r: u8)
        requires
            sq.on_board(),
        ensures
            r == self.effect(side, sq.0 as int),
            self.effects_ok() ==> r == attack_count(self.board@, side, sq.0 as int),
    {
        match side {
            Side::Hum => self.effect_counts[0].get(sq),
            Side::Com => self.effect_counts[1].get(sq),
        }
    }

    /// The king square of `side`.
    pub fn king_square(&self, side: Side) -> (r: Square)
        ensures
            r == self.king(side),
    {
        match side {
            Side::Hum => self.king_sq[0],
            Side::Com => self.king_sq[1],
        }
    }

    /// The number of COM's pieces on the board and in hand, without its
    /// king.
    pub fn com_nonking_count(&self) -> (r: u32)
        ensures
            r == self.com_nonking_count,
    {
        self.com_nonking_count
    }

    /// Whether the king of `us` is attacked.
    pub fn is_checked(&self, us: Side) -> (r: bool)
        requires
            self.wf(),
        ensures
            r == (attack_count(self.board@, us.opp(), self.king(us).0 as int) > 0),
    {
        let them: Side = us.inv();
        self.effect_count(them, self.king_square(us)) > 0
    }
}

impl Position {
    /// Whether the side to move, whose king is attacked, is checkmated; a
    /// mate by a dropped pawn counts as mate.  The position is left as it
    /// was.
    pub fn is_checkmated(&mut self) -> (r: bool)
        requires
            old(self).wf(),
        ensures
            *final(self) == *old(self),
            r == !crate::movegen::general::can_evade(*old(self), false),
    {
        crate::movegen::general::position_is_checkmated(self)
    }

    /// Whether `mv` can be played: it is valid, its origin holds a piece of
    /// the side to move (or the hand holds the dropped kind), its
    /// destination holds no piece of that side (or nothing, for a drop) and
    /// no king, and a promotion is asked only of a piece that can promote.
    pub open spec fn playable(&self, mv: Move) -> bool {
        let us = self.side_to_move;
        let b = self.board@;
        &&& mv.spec_is_valid()
        &&& self.ply < u32::MAX
        &&& if mv.spec_is_drop() {
            b[mv.spec_dst().0 as int] == Piece::NoPiece && self.hands.of(us).count(mv.dropped()) > 0
        } else {
            &&& b[mv.spec_src().0 as int].is_of(us)
            &&& !b[mv.spec_dst().0 as int].is_of(us)
            &&& b[mv.spec_dst().0 as int].spec_kind() != PieceKind::King
            &&& (mv.spec_is_promotion() ==> b[mv.spec_src().0 as int].spec_is_promotable())
        }
    }

    /// The board after `us` has played `mv`.
    pub open spec fn board_after(b: Seq<Piece>, us: Side, mv: Move) -> Seq<Piece> {
        if mv.spec_is_drop() {
            b.update(mv.spec_dst().0 as int, Piece::of(us, mv.dropped()))
        } else {
            let pc = b[mv.spec_src().0 as int];
            b.update(mv.spec_src().0 as int, Piece::NoPiece).update(
                mv.spec_dst().0 as int,
                if mv.spec_is_promotion() {
                    pc.promoted()
                } else {
                    pc
                },
            )
        }
    }

    /// The hand of the mover after `mv` was played on board `b`: one less of
    /// the dropped kind, or one more of what was captured.
    pub open spec fn hand_after(h: Seq<u32>, b: Seq<Piece>, mv: Move) -> Seq<u32> {
        if mv.spec_is_drop() {
            let k = mv.dropped().value();
            h.update(k, (h[k] - 1) as u32)
        } else if b[mv.spec_dst().0 as int] != Piece::NoPiece {
            let k = b[mv.spec_dst().0 as int].spec_kind().raw().value();
            h.update(k, (h[k] + 1) as u32)
        } else {
            h
        }
    }

    /// What is kept of `mv`, played on board `b`, to take it back.
    pub open spec fn undo_record(b: Seq<Piece>, mv: Move) -> UndoableMove {
        if mv.spec_is_drop() {
            UndoableMove((mv.0 % 65536) as u32)
        } else {
            UndoableMove(
                (mv.0 % 65536 + 65536 * b[mv.spec_src().0 as int].value() + 2097152
                    * b[mv.spec_dst().0 as int].value()) as u32,
            )
        }
    }

    /// `after` and `umv` are what playing `mv` in this position gives.
    pub open spec fn moved(&self, mv: Move, after: Position, umv: UndoableMove) -> bool {
        let us = self.side_to_move;
        &&& after.wf()
        &&& after.board@ == Position::board_after(self.board@, us, mv)
        &&& after.hands.of(us)@ == Position::hand_after(self.hands.of(us)@, self.board@, mv)
        &&& after.hands.of(us.opp()) == self.hands.of(us.opp())
        &&& after.side_to_move == us.opp()
        &&& after.ply == self.ply + 1
        &&& umv == Position::undo_record(self.board@, mv)
    }

    /// Whether `umv` can be taken back: it is valid, and the board shows
    /// what it left there.
    pub open spec fn undoable(&self, umv: UndoableMove) -> bool {
        let us = self.side_to_move.opp();
        let b = self.board@;
        &&& umv.spec_is_valid()
        &&& self.ply >= 2
        &&& if umv.spec_is_drop() {
            b[umv.spec_dst().0 as int] == Piece::of(us, umv.dropped())
        } else {
            &&& b[umv.spec_src().0 as int] == Piece::NoPiece
            &&& umv.spec_piece_src().is_of(us)
            &&& (umv.spec_is_promotion() ==> umv.spec_piece_src().spec_is_promotable())
            &&& b[umv.spec_dst().0 as int] == umv.spec_piece_dst()
            &&& (umv.spec_piece_captured() != Piece::NoPiece ==> self.hands.of(us).count(
                umv.spec_piece_captured().spec_kind().raw(),
            ) > 0)
        }
    }

    /// The board before `umv` was played.
    pub open spec fn board_before(b: Seq<Piece>, umv: UndoableMove) -> Seq<Piece> {
        if umv.spec_is_drop() {
            b.update(umv.spec_dst().0 as int, Piece::NoPiece)
        } else {
            b.update(umv.spec_dst().0 as int, umv.spec_piece_captured()).update(
                umv.spec_src().0 as int,
                umv.spec_piece_src(),
            )
        }
    }

    /// The hand of the mover before `umv` was played.
    pub open spec fn hand_before(h: Seq<u32>, umv: UndoableMove) -> Seq<u32> {
        if umv.spec_is_drop() {
            let k = umv.dropped().value();
            h.update(k, (h[k] + 1) as u32)
        } else if umv.spec_piece_captured() != Piece::NoPiece {
            let k = umv.spec_piece_captured().spec_kind().raw().value();
            h.update(k, (h[k] - 1) as u32)
        } else {
            h
        }
    }

    /// `before` is what taking `umv` back in this position gives.
    pub open spec fn unmoved(&self, umv: UndoableMove, before: Position) -> bool {
        let us = self.side_to_move.opp();
        &&& before.wf()
        &&& before.board@ == Position::board_before(self.board@, umv)
        &&& before.hands.of(us)@ == Position::hand_before(self.hands.of(us)@, umv)
        &&& before.hands.of(us.opp()) == self.hands.of(us.opp())
        &&& before.side_to_move == us
        &&& before.ply == self.ply - 1
    }

    /// Whether `mv` can be played in this position.
    pub fn is_playable(&self, mv: Move) -> (r: bool)
        ensures
            r == self.playable(mv),
    {
        if !mv.is_valid() || self.ply == u32::MAX {
            return false;
        }
        let us: Side = self.side_to_move;
        let dst: Square = mv.dst();
        let pc_dst: Piece = self.board.get(dst);
        if mv.is_drop() {
            let pk: PieceKind = mv.dropped_piece_kind();
            pc_dst == Piece::NoPiece && self.hands.get(us).get(pk) > 0
        } else {
            let pc_src: Piece = self.board.get(mv.src());
            if !pc_src.is_piece() || pc_src.side() != us {
                return false;
            }
            if pc_dst.is_piece() && pc_dst.side() == us {
                return false;
            }
            if pc_dst.kind().inner() == 8 {
                return false;
            }
            !mv.is_promotion() || pc_src.is_promotable()
        }
    }

    /// Adds one to (`up`) or takes one from the count of kind `pk` in the
    /// hand of `side`.
    pub fn bump_hand(&mut self, side: Side, pk: PieceKind, up: bool)
        requires
            pk.is_hand(),
            up ==> old(self).hands.of(side).count(pk) < u32::MAX,
            !up ==> old(self).hands.of(side).count(pk) > 0,
        ensures
            final(self).hands.of(side)@ == old(self).hands.of(side)@.update(
                pk.value(),
                (old(self).hands.of(side).count(pk) + (if up { 1int } else { -1int })) as u32,
            ),
            final(self).hands.of(side.opp()) == old(self).hands.of(side.opp()),
            hand_total(final(self).hands.of(side)) == hand_total(old(self).hands.of(side)) + (if up {
                1int
            } else {
                -1int
            }),
            final(self).board == old(self).board,
            final(self).side_to_move == old(self).side_to_move,
            final(self).ply == old(self).ply,
            final(self).king_sq == old(self).king_sq,
            final(self).com_nonking_count == old(self).com_nonking_count,
            final(self).effect_counts == old(self).effect_counts,
            final(self).ranged_effects == old(self).ranged_effects,
            final(self).bb_occ == old(self).bb_occ,
            final(self).bb_occ_side == old(self).bb_occ_side,
            final(self).bb_pk == old(self).bb_pk,
    {
        let mut h: Hand = self.hands.get(side);
        let n: u32 = h.get(pk);
        if up {
            h.set(pk, n + 1);
        } else {
            h.set(pk, n - 1);
        }
        self.hands.set(side, h);
    }

    /// Plays `mv` and returns what is needed to take it back.
    pub fn do_move(&mut self, mv: Move) -> (umv: UndoableMove)
        requires
            old(self).wf(),
            old(self).playable(mv),
        ensures
            old(self).moved(mv, *final(self), umv),
            final(self).undoable(umv),
    {
        let umv: UndoableMove = if mv.is_drop() {
            self.do_move_drop(mv)
        } else {
            self.do_move_walk(mv)
        };
        self.side_to_move = self.side_to_move.inv();
        self.ply = self.ply + 1;
        umv
    }

    /// Moves the piece on `src` to `dst`, where it becomes `pc_dst` and
    /// takes the place of what stands there.  The attack counts follow:
    /// first the piece leaves its square, then it arrives.
    pub fn lift_and_place(&mut self, src: Square, dst: Square, pc_dst: Piece)
        requires
            old(self).bb_ok(),
            old(self).effects_ok(),
            src.on_board(),
            dst.on_board(),
            src != dst,
            old(self).board@[src.0 as int].is_piece(),
            pc_dst.is_piece(),
        ensures
            final(self).bb_ok(),
            final(self).effects_ok(),
            final(self).board@ == old(self).board@.update(src.0 as int, Piece::NoPiece).update(
                dst.0 as int,
                pc_dst,
            ),
            final(self).hands == old(self).hands,
            final(self).side_to_move == old(self).side_to_move,
            final(self).ply == old(self).ply,
            final(self).king_sq == old(self).king_sq,
            final(self).com_nonking_count == old(self).com_nonking_count,
    {
        let ghost b0 = self.board@;
        let pc_src: Piece = self.board.get(src);
        let pc_captured: Piece = self.board.get(dst);
        self.remove_piece(src);
        let ghost b1 = self.board@;
        proof {
            assert(b1.update(src.0 as int, pc_src) =~= b0);
            assert(b1.update(src.0 as int, Piece::NoPiece) =~= b1);
        }
        self.update_effect(src, pc_src, Piece::NoPiece);
        if pc_captured != Piece::NoPiece {
            self.remove_piece(dst);
        }
        self.put_piece(dst, pc_dst);
        proof {
            assert(self.board@ =~= b0.update(src.0 as int, Piece::NoPiece).update(dst.0 as int, pc_dst));
            assert(self.board@.update(dst.0 as int, pc_captured) =~= b1);
            assert(self.board@.update(dst.0 as int, pc_dst) =~= self.board@);
        }
        self.update_effect(dst, pc_captured, pc_dst);
    }

    /// Plays a move that is not a drop; side to move and ply are left for
    /// the caller.  The attack counts follow the move: first the piece
    /// leaves its square, then it takes the place of what stood on the
    /// destination.
    pub fn do_move_walk(&mut self, mv: Move) -> (umv: UndoableMove)
        requires
            old(self).wf(),
            old(self).playable(mv),
            !mv.spec_is_drop(),
        ensures
            final(self).bb_ok(),
            final(self).effects_ok(),
            final(self).kings_ok(),
            final(self).counts_ok(),
            final(self).board@ == Position::board_after(old(self).board@, old(self).side_to_move, mv),
            final(self).hands.of(old(self).side_to_move)@ == Position::hand_after(
                old(self).hands.of(old(self).side_to_move)@,
                old(self).board@,
                mv,
            ),
            final(self).hands.of(old(self).side_to_move.opp()) == old(self).hands.of(
                old(self).side_to_move.opp(),
            ),
            final(self).side_to_move == old(self).side_to_move,
            final(self).ply == old(self).ply,
            umv == Position::undo_record(old(self).board@, mv),
            umv.spec_is_valid(),
            !umv.spec_is_drop(),
            umv.spec_is_promotion() == mv.spec_is_promotion(),
            umv.spec_src() == mv.spec_src(),
            umv.spec_dst() == mv.spec_dst(),
            umv.spec_piece_src() == old(self).board@[mv.spec_src().0 as int],
            umv.spec_piece_captured() == old(self).board@[mv.spec_dst().0 as int],
            umv.spec_piece_captured() != Piece::NoPiece ==> final(self).hands.of(
                old(self).side_to_move,
            ).count(umv.spec_piece_captured().spec_kind().raw()) > 0,
    {
        let us: Side = self.side_to_move;
        let src: Square = mv.src();
        let dst: Square = mv.dst();
        let promo: bool = mv.is_promotion();
        let pc_src: Piece = self.board.get(src);
        let pc_captured: Piece = self.board.get(dst);
        let pc_dst: Piece = if promo { pc_src.to_promoted() } else { pc_src };
        let ghost b0 = self.board@;
        let ghost h0 = self.hands;
        proof {
            lemma_count_bound(b0, Side::Hum, 81);
            lemma_count_bound(b0, Side::Com, 81);
            lemma_count_positive(b0, us, src.0 as int, 81);
            lemma_count_positive(b0, Side::Com, self.king(Side::Com).0 as int, 81);
            lemma_count_positive(b0, Side::Hum, self.king(Side::Hum).0 as int, 81);
        }
        let ghost b1 = b0.update(src.0 as int, Piece::NoPiece);
        let ghost b2 = b1.update(dst.0 as int, Piece::NoPiece);
        proof {
            lemma_count_update(b0, Side::Hum, src.0 as int, Piece::NoPiece, 81);
            lemma_count_update(b0, Side::Com, src.0 as int, Piece::NoPiece, 81);
            lemma_count_update(b1, Side::Hum, dst.0 as int, Piece::NoPiece, 81);
            lemma_count_update(b1, Side::Com, dst.0 as int, Piece::NoPiece, 81);
            lemma_count_update(b2, Side::Hum, dst.0 as int, pc_dst, 81);
            lemma_count_update(b2, Side::Com, dst.0 as int, pc_dst, 81);
            assert(b2.update(dst.0 as int, pc_dst) =~= Position::board_after(b0, us, mv));
        }
        if pc_captured != Piece::NoPiece {
            let pr_captured: PieceKind = pc_captured.to_raw_kind();
            proof {
                lemma_count_positive(b0, us.opp(), dst.0 as int, 81);
                lemma_count_update(b0, Side::Hum, dst.0 as int, Piece::NoPiece, 81);
                lemma_count_update(b0, Side::Com, dst.0 as int, Piece::NoPiece, 81);
                lemma_count_positive(
                    b0.update(dst.0 as int, Piece::NoPiece),
                    Side::Com,
                    self.king(Side::Com).0 as int,
                    81,
                );
            }
            self.bump_hand(us, pr_captured, true);
            match us {
                Side::Hum => {
                    self.com_nonking_count = self.com_nonking_count - 1;
                },
                Side::Com => {
                    self.com_nonking_count = self.com_nonking_count + 1;
                },
            }
        }
        self.lift_and_place(src, dst, pc_dst);
        proof {
            assert(self.board@ =~= Position::board_after(b0, us, mv));
        }
        if pc_src.kind().inner() == 8 {
            match us {
                Side::Hum => {
                    self.king_sq[0] = dst;
                },
                Side::Com => {
                    self.king_sq[1] = dst;
                },
            }
        }
        proof {
            crate::moves::lemma_move_low(mv.0);
            crate::moves::lemma_move_fields(
                (mv.0 % 65536) as u32,
                pc_src.value() as u32,
                pc_captured.value() as u32,
            );
        }
        UndoableMove::from_move_walk(mv, pc_src, pc_captured)
    }

    /// Plays a drop; side to move and ply are left for the caller.  The
    /// attack counts follow the drop.
    pub fn do_move_drop(&mut self, mv: Move) -> (umv: UndoableMove)
        requires
            old(self).wf(),
            old(self).playable(mv),
            mv.spec_is_drop(),
        ensures
            final(self).bb_ok(),
            final(self).effects_ok(),
            final(self).kings_ok(),
            final(self).counts_ok(),
            final(self).board@ == Position::board_after(old(self).board@, old(self).side_to_move, mv),
            final(self).hands.of(old(self).side_to_move)@ == Position::hand_after(
                old(self).hands.of(old(self).side_to_move)@,
                old(self).board@,
                mv,
            ),
            final(self).hands.of(old(self).side_to_move.opp()) == old(self).hands.of(
                old(self).side_to_move.opp(),
            ),
            final(self).side_to_move == old(self).side_to_move,
            final(self).ply == old(self).ply,
            umv == Position::undo_record(old(self).board@, mv),
            umv.spec_is_valid(),
            umv.spec_is_drop(),
            umv.dropped() == mv.dropped(),
            umv.spec_dst() == mv.spec_dst(),
    {
        let us: Side = self.side_to_move;
        let pk: PieceKind = mv.dropped_piece_kind();
        let dst: Square = mv.dst();
        let ghost b0 = self.board@;
        self.bump_hand(us, pk, false);
        self.put_piece(dst, Piece::new(us, pk));
        proof {
            lemma_count_update(b0, Side::Hum, dst.0 as int, Piece::of(us, pk), 81);
            lemma_count_update(b0, Side::Com, dst.0 as int, Piece::of(us, pk), 81);
            crate::moves::lemma_move_low(mv.0);
            assert(self.board@.update(dst.0 as int, Piece::NoPiece) =~= b0);
            assert(self.board@.update(dst.0 as int, Piece::of(us, pk)) =~= self.board@);
        }
        self.update_effect(dst, Piece::NoPiece, Piece::new(us, pk));
        UndoableMove::from_move_drop(mv)
    }

    /// Takes `umv` back.
    pub fn undo_move(&mut self, umv: UndoableMove)
        requires
            old(self).wf(),
            old(self).undoable(umv),
        ensures
            old(self).unmoved(umv, *final(self)),
    {
        self.side_to_move = self.side_to_move.inv();
        self.ply = self.ply - 1;
        if umv.is_drop() {
            self.undo_move_drop(umv);
        } else {
            self.undo_move_walk(umv);
        }
    }

    /// Takes back a move that is not a drop; side to move and ply have been
    /// set back by the caller.  The attack counts follow: first what was
    /// captured takes the place of the piece on the destination, then the
    /// piece comes back to its square.
    pub fn undo_move_walk(&mut self, umv: UndoableMove)
        requires
            old(self).bb_ok(),
            old(self).effects_ok(),
            old(self).kings_ok(),
            old(self).counts_ok(),
            umv.spec_is_valid(),
            !umv.spec_is_drop(),
            old(self).board@[umv.spec_src().0 as int] == Piece::NoPiece,
            umv.spec_piece_src().is_of(old(self).side_to_move),
            umv.spec_is_promotion() ==> umv.spec_piece_src().spec_is_promotable(),
            old(self).board@[umv.spec_dst().0 as int] == umv.spec_piece_dst(),
            umv.spec_piece_captured() != Piece::NoPiece ==> old(self).hands.of(
                old(self).side_to_move,
            ).count(umv.spec_piece_captured().spec_kind().raw()) > 0,
        ensures
            final(self).bb_ok(),
            final(self).effects_ok(),
            final(self).kings_ok(),
            final(self).counts_ok(),
            final(self).board@ == Position::board_before(old(self).board@, umv),
            final(self).hands.of(old(self).side_to_move)@ == Position::hand_before(
                old(self).hands.of(old(self).side_to_move)@,
                umv,
            ),
            final(self).hands.of(old(self).side_to_move.opp()) == old(self).hands.of(
                old(self).side_to_move.opp(),
            ),
            final(self).side_to_move == old(self).side_to_move,
            final(self).ply == old(self).ply,
    {
        let us: Side = self.side_to_move;
        let src: Square = umv.src();
        let dst: Square = umv.dst();
        let pc_src: Piece = umv.piece_src();
        let pc_captured: Piece = umv.piece_captured();
        let ghost b0 = self.board@;
        proof {
            lemma_count_bound(b0, Side::Hum, 81);
            lemma_count_bound(b0, Side::Com, 81);
            lemma_count_positive(b0, Side::Com, self.king(Side::Com).0 as int, 81);
        }
        let pc_dst: Piece = self.board.get(dst);
        self.remove_piece(dst);
        let ghost b1 = self.board@;
        proof {
            lemma_count_update(b0, Side::Hum, dst.0 as int, Piece::NoPiece, 81);
            lemma_count_update(b0, Side::Com, dst.0 as int, Piece::NoPiece, 81);
        }
        if pc_captured != Piece::NoPiece {
            self.put_piece(dst, pc_captured);
            let pr_captured: PieceKind = pc_captured.to_raw_kind();
            self.bump_hand(us, pr_captured, false);
            proof {
                lemma_count_update(b1, Side::Hum, dst.0 as int, pc_captured, 81);
                lemma_count_update(b1, Side::Com, dst.0 as int, pc_captured, 81);
            }
            match us {
                Side::Hum => {
                    self.com_nonking_count = self.com_nonking_count + 1;
                },
                Side::Com => {
                    proof {
                        lemma_count_positive(b0, Side::Com, dst.0 as int, 81);
                    }
                    self.com_nonking_count = self.com_nonking_count - 1;
                },
            }
        }
        let ghost b2 = self.board@;
        proof {
            assert(b2.update(dst.0 as int, pc_dst) =~= b0);
            assert(b2.update(dst.0 as int, pc_captured) =~= b2);
        }
        self.update_effect(dst, pc_dst, pc_captured);
        self.put_piece(src, pc_src);
        proof {
            lemma_count_update(b2, Side::Hum, src.0 as int, pc_src, 81);
            lemma_count_update(b2, Side::Com, src.0 as int, pc_src, 81);
            assert(self.board@.update(src.0 as int, Piece::NoPiece) =~= b2);
            assert(self.board@.update(src.0 as int, pc_src) =~= self.board@);
        }
        self.update_effect(src, Piece::NoPiece, pc_src);
        proof {
            assert(self.board@ =~= Position::board_before(b0, umv));
        }
        if pc_src.kind().inner() == 8 {
            match us {
                Side::Hum => {
                    self.king_sq[0] = src;
                },
                Side::Com => {
                    self.king_sq[1] = src;
                },
            }
        }
    }

    /// Takes back a drop; side to move and ply have been set back by the
    /// caller.  The attack counts follow.
    pub fn undo_move_drop(&mut self, umv: UndoableMove)
        requires
            old(self).bb_ok(),
            old(self).effects_ok(),
            old(self).kings_ok(),
            old(self).counts_ok(),
            umv.spec_is_valid(),
            umv.spec_is_drop(),
            old(self).board@[umv.spec_dst().0 as int] == Piece::of(
                old(self).side_to_move,
                umv.dropped(),
            ),
        ensures
            final(self).bb_ok(),
            final(self).effects_ok(),
            final(self).effects_ok(),
            final(self).kings_ok(),
            final(self).counts_ok(),
            final(self).board@ == Position::board_before(old(self).board@, umv),
            final(self).hands.of(old(self).side_to_move)@ == Position::hand_before(
                old(self).hands.of(old(self).side_to_move)@,
                umv,
            ),
            final(self).hands.of(old(self).side_to_move.opp()) == old(self).hands.of(
                old(self).side_to_move.opp(),
            ),
            final(self).side_to_move == old(self).side_to_move,
            final(self).ply == old(self).ply,
    {
        let us: Side = self.side_to_move;
        let pk: PieceKind = umv.dropped_piece_kind();
        let dst: Square = umv.dst();
        let ghost b0 = self.board@;
        proof {
            lemma_count_bound(b0, Side::Hum, 81);
            lemma_count_bound(b0, Side::Com, 81);
            lemma_count_positive(b0, us, dst.0 as int, 81);
            lemma_count_update(b0, Side::Hum, dst.0 as int, Piece::NoPiece, 81);
            lemma_count_update(b0, Side::Com, dst.0 as int, Piece::NoPiece, 81);
        }
        self.remove_piece(dst);
        self.bump_hand(us, pk, true);
        proof {
            assert(self.board@.update(dst.0 as int, Piece::of(us, pk)) =~= b0);
            assert(self.board@.update(dst.0 as int, Piece::NoPiece) =~= self.board@);
        }
        self.update_effect(dst, Piece::new(us, pk), Piece::NoPiece);
    }
}


/// The union of the first `n` sets of `bbs`.
pub open spec fn union_upto(bbs: Seq<Bitboard>, n: int) -> Bitboard
    decreases n,
{
    if n <= 0 {
        Bitboard { lo: 0, hi: 0 }
    } else {
        let u = union_upto(bbs, n - 1);
        Bitboard { lo: u.lo | bbs[n - 1].lo, hi: u.hi | bbs[n - 1].hi }
    }
}

/// The squares of a union are the squares of its parts.
pub proof fn lemma_union_upto(bbs: Seq<Bitboard>, n: int)
    requires
        0 <= n <= bbs.len(),
        forall|k: int| 0 <= k < n ==> (#[trigger] bbs[k]).spec_is_valid(),
    ensures
        union_upto(bbs, n).spec_is_valid(),
        forall|q: int| union_upto(bbs, n).has(q) == (exists|k: int| 0 <= k < n && #[trigger] bbs[k].has(q)),
    decreases n,
{
    if n > 0 {
        lemma_union_upto(bbs, n - 1);
        let u = union_upto(bbs, n - 1);
        let v = union_upto(bbs, n);
        crate::bitboard::lemma_bit64_ops(u.lo, bbs[n - 1].lo);
        crate::bitboard::lemma_bit64_ops(u.hi, bbs[n - 1].hi);
        crate::bitboard::lemma_bit64_bounds(u.lo, bbs[n - 1].lo, 0x8000_0000_0000_0000);
        crate::bitboard::lemma_bit64_bounds(u.hi, bbs[n - 1].hi, 0x40000);
        assert forall|q: int| v.has(q) == (exists|k: int| 0 <= k < n && #[trigger] bbs[k].has(q)) by {
            assert(v.has(q) == (u.has(q) || bbs[n - 1].has(q)));
            if u.has(q) {
                let k = choose|k: int| 0 <= k < n - 1 && #[trigger] bbs[k].has(q);
                assert(0 <= k < n && bbs[k].has(q));
            }
            if exists|k: int| 0 <= k < n && #[trigger] bbs[k].has(q) {
                let k = choose|k: int| 0 <= k < n && #[trigger] bbs[k].has(q);
                if k < n - 1 {
                    assert(u.has(q));
                }
            }
        }
    } else {
        crate::bitboard::lemma_bit64_single(0);
    }
}

/// A consistent position is fixed by its board, hands, side to move and
/// ply: two consistent positions that agree on these are equal.
pub proof fn lemma_position_determined(p: Position, q: Position)
    requires
        p.wf(),
        q.wf(),
        p.board@ == q.board@,
        p.hands.of(Side::Hum)@ == q.hands.of(Side::Hum)@,
        p.hands.of(Side::Com)@ == q.hands.of(Side::Com)@,
        p.side_to_move == q.side_to_move,
        p.ply == q.ply,
    ensures
        p == q,
{
    assert(p.board.0 =~= q.board.0);
    assert(p.hands.0@[0].0 =~= q.hands.0@[0].0);
    assert(p.hands.0@[1].0 =~= q.hands.0@[1].0);
    assert(p.hands.0 =~= q.hands.0);
    crate::bitboard::lemma_bitboard_ext(p.bb_occ, q.bb_occ);
    assert forall|i: int| 0 <= i < 2 implies p.bb_occ_side@[i] == q.bb_occ_side@[i] by {
        assert forall|x: int| 0 <= x < 81 implies p.bb_occ_side@[i].has(x) == q.bb_occ_side@[i].has(
            x,
        ) by {}
        crate::bitboard::lemma_bitboard_ext(p.bb_occ_side@[i], q.bb_occ_side@[i]);
    }
    assert(p.bb_occ_side =~= q.bb_occ_side);
    assert forall|k: int| 0 <= k < 15 implies p.bb_pk@[k] == q.bb_pk@[k] by {
        assert forall|x: int| 0 <= x < 81 implies p.bb_pk@[k].has(x) == q.bb_pk@[k].has(x) by {}
        crate::bitboard::lemma_bitboard_ext(p.bb_pk@[k], q.bb_pk@[k]);
    }
    assert(p.bb_pk =~= q.bb_pk);
    assert forall|j: int| 0 <= j < 81 implies p.effect_counts@[0].0@[j] == q.effect_counts@[0].0@[j] by {
        assert(p.effect_counts@[0]@[j] == attack_count(p.board@, Side::Hum, j));
        assert(q.effect_counts@[0]@[j] == attack_count(q.board@, Side::Hum, j));
    }
    assert forall|j: int| 0 <= j < 81 implies p.effect_counts@[1].0@[j] == q.effect_counts@[1].0@[j] by {
        assert(p.effect_counts@[1]@[j] == attack_count(p.board@, Side::Com, j));
        assert(q.effect_counts@[1]@[j] == attack_count(q.board@, Side::Com, j));
    }
    assert(p.effect_counts@[0].0 =~= q.effect_counts@[0].0);
    assert(p.effect_counts@[1].0 =~= q.effect_counts@[1].0);
    assert(p.effect_counts =~= q.effect_counts);
    assert forall|j: int| 0 <= j < 81 implies p.ranged_effects.0@[j] == q.ranged_effects.0@[j] by {
        assert(p.ranged_effects@[j] == ray_pair(p.board@, j));
        assert(q.ranged_effects@[j] == ray_pair(q.board@, j));
    }
    assert(p.ranged_effects.0 =~= q.ranged_effects.0);
    assert(p.king_sq =~= q.king_sq);
}

/// Taking a move back gives the board and the mover's hand of before.
pub proof fn lemma_round_trip(b0: Seq<Piece>, h0: Seq<u32>, us: Side, mv: Move)
    requires
        b0.len() == 81,
        h0.len() == 8,
        mv.spec_is_valid(),
        if mv.spec_is_drop() {
            b0[mv.spec_dst().0 as int] == Piece::NoPiece && h0[mv.dropped().value()] > 0
        } else {
            &&& b0[mv.spec_src().0 as int].is_of(us)
            &&& !b0[mv.spec_dst().0 as int].is_of(us)
            &&& b0[mv.spec_dst().0 as int].spec_kind() != PieceKind::King
            &&& (b0[mv.spec_dst().0 as int] != Piece::NoPiece
                ==> h0[b0[mv.spec_dst().0 as int].spec_kind().raw().value()] < u32::MAX)
        },
    ensures
        Position::board_before(
            Position::board_after(b0, us, mv),
            Position::undo_record(b0, mv),
        ) == b0,
        Position::hand_before(Position::hand_after(h0, b0, mv), Position::undo_record(b0, mv))
            == h0,
{
    let umv = Position::undo_record(b0, mv);
    crate::moves::lemma_move_low(mv.0);
    if !mv.spec_is_drop() {
        let ps = b0[mv.spec_src().0 as int];
        let pc = b0[mv.spec_dst().0 as int];
        crate::moves::lemma_move_fields((mv.0 % 65536) as u32, ps.value() as u32, pc.value() as u32);
        assert(umv.spec_piece_src() == ps);
        assert(umv.spec_piece_captured() == pc);
        assert(umv.spec_src() == mv.spec_src());
        assert(umv.spec_dst() == mv.spec_dst());
    } else {
        assert(umv.spec_is_drop());
        assert(umv.dropped() == mv.dropped());
        assert(umv.spec_dst() == mv.spec_dst());
    }
    assert(Position::board_before(Position::board_after(b0, us, mv), umv) =~= b0);
    assert(Position::hand_before(Position::hand_after(h0, b0, mv), umv) =~= h0);
}

/// A piece that can be captured leaves room for it in the hand.
pub proof fn lemma_capture_fits(p: Position, mv: Move)
    requires
        p.counts_ok(),
        mv.spec_is_valid(),
        !mv.spec_is_drop(),
        p.board@[mv.spec_dst().0 as int] != Piece::NoPiece,
        p.board@[mv.spec_dst().0 as int].spec_kind() != PieceKind::King,
    ensures
        p.hands.of(p.side_to_move)@[p.board@[mv.spec_dst().0 as int].spec_kind().raw().value()]
            < u32::MAX,
{
    let b0 = p.board@;
    let pc = b0[mv.spec_dst().0 as int];
    lemma_count_positive(b0, pc.spec_side(), mv.spec_dst().0 as int, 81);
    lemma_count_bound(b0, Side::Hum, 81);
    lemma_count_bound(b0, Side::Com, 81);
}

/// What a move and its undoing leave of board and hands.
pub proof fn lemma_undo_fields(p0: Position, mv: Move, p1: Position, umv: UndoableMove, p2: Position)
    requires
        p0.playable(mv),
        !mv.spec_is_drop() && p0.board@[mv.spec_dst().0 as int] != Piece::NoPiece ==> p0.hands.of(
            p0.side_to_move,
        )@[p0.board@[mv.spec_dst().0 as int].spec_kind().raw().value()] < u32::MAX,
        p1.board@ == Position::board_after(p0.board@, p0.side_to_move, mv),
        p1.hands.of(p0.side_to_move)@ == Position::hand_after(
            p0.hands.of(p0.side_to_move)@,
            p0.board@,
            mv,
        ),
        p1.hands.of(p0.side_to_move.opp()) == p0.hands.of(p0.side_to_move.opp()),
        p1.side_to_move == p0.side_to_move.opp(),
        p1.ply == p0.ply + 1,
        umv == Position::undo_record(p0.board@, mv),
        p2.board@ == Position::board_before(p1.board@, umv),
        p2.hands.of(p0.side_to_move)@ == Position::hand_before(p1.hands.of(p0.side_to_move)@, umv),
        p2.hands.of(p0.side_to_move.opp()) == p1.hands.of(p0.side_to_move.opp()),
        p2.side_to_move == p0.side_to_move,
        p2.ply == p1.ply - 1,
    ensures
        p2.board@ == p0.board@,
        p2.hands.of(Side::Hum)@ == p0.hands.of(Side::Hum)@,
        p2.hands.of(Side::Com)@ == p0.hands.of(Side::Com)@,
        p2.side_to_move == p0.side_to_move,
        p2.ply == p0.ply,
{
    lemma_round_trip(p0.board@, p0.hands.of(p0.side_to_move)@, p0.side_to_move, mv);
}

/// Taking a move back restores the position: board, hands, occupancy sets,
/// attack counts, ray directions, king squares and the piece count of COM
/// are all what they were before the move.
pub proof fn lemma_undo_restores(
    p0: Position,
    mv: Move,
    p1: Position,
    umv: UndoableMove,
    p2: Position,
)
    requires
        p0.wf(),
        p0.playable(mv),
        p0.moved(mv, p1, umv),
        p1.unmoved(umv, p2),
    ensures
        p2 == p0,
{
    if !mv.spec_is_drop() && p0.board@[mv.spec_dst().0 as int] != Piece::NoPiece {
        lemma_capture_fits(p0, mv);
    }
    lemma_undo_fields(p0, mv, p1, umv, p2);
    lemma_position_determined(p2, p0);
}

/// The position in which a move was played is what taking the move back
/// leads to.
pub proof fn lemma_move_can_be_undone(p0: Position, mv: Move, p1: Position, umv: UndoableMove)
    requires
        p0.wf(),
        p0.playable(mv),
        p0.moved(mv, p1, umv),
    ensures
        p1.unmoved(umv, p0),
{
    if !mv.spec_is_drop() && p0.board@[mv.spec_dst().0 as int] != Piece::NoPiece {
        lemma_capture_fits(p0, mv);
    }
    lemma_round_trip(p0.board@, p0.hands.of(p0.side_to_move)@, p0.side_to_move, mv);
}

/// The attack counts and ray directions that a consistent position holds,
/// however many moves and take-backs have kept them up to date, are those
/// that a position newly built on its board holds, for every side and
/// square.
pub proof fn lemma_effects_match_recount(p: Position, fresh: Position, s: Side, q: int)
    requires
        p.wf(),
        fresh.wf(),
        fresh.board@ == p.board@,
        0 <= q < 81,
    ensures
        p.effect(s, q) == fresh.effect(s, q),
        p.effect(s, q) == attack_count(p.board@, s, q),
        p.ranged_effects@[q] == fresh.ranged_effects@[q],
{
}

/// The occupied squares are those of HUM together with those of COM, no
/// square belongs to both, and the occupied squares are the union of the
/// squares of the fourteen kinds.
pub proof fn lemma_occupancy_partition(p: Position)
    requires
        p.wf(),
    ensures
        p.bb_occ.lo == p.bb_occ_side@[0].lo | p.bb_occ_side@[1].lo,
        p.bb_occ.hi == p.bb_occ_side@[0].hi | p.bb_occ_side@[1].hi,
        p.bb_occ_side@[0].lo & p.bb_occ_side@[1].lo == 0,
        p.bb_occ_side@[0].hi & p.bb_occ_side@[1].hi == 0,
        p.bb_occ == union_upto(p.bb_pk@, 15),
{
    let h = p.bb_occ_side@[0];
    let c = p.bb_occ_side@[1];
    crate::bitboard::lemma_bit64_ops(h.lo, c.lo);
    crate::bitboard::lemma_bit64_ops(h.hi, c.hi);
    crate::bitboard::lemma_bit64_bounds(h.lo, c.lo, 0x8000_0000_0000_0000);
    crate::bitboard::lemma_bit64_bounds(h.hi, c.hi, 0x40000);
    crate::bitboard::lemma_bit64_single(0);
    let u = Bitboard { lo: h.lo | c.lo, hi: h.hi | c.hi };
    let n = Bitboard { lo: h.lo & c.lo, hi: h.hi & c.hi };
    assert forall|q: int| 0 <= q < 81 implies u.has(q) == p.bb_occ.has(q) by {
        assert(u.has(q) == (h.has(q) || c.has(q)));
    }
    crate::bitboard::lemma_bitboard_ext(u, p.bb_occ);
    assert forall|q: int| 0 <= q < 81 implies n.has(q) == (Bitboard { lo: 0, hi: 0 }).has(q) by {
        assert(n.has(q) == (h.has(q) && c.has(q)));
    }
    crate::bitboard::lemma_bitboard_ext(n, Bitboard { lo: 0, hi: 0 });
    lemma_union_upto(p.bb_pk@, 15);
    let k = union_upto(p.bb_pk@, 15);
    assert forall|q: int| 0 <= q < 81 implies k.has(q) == p.bb_occ.has(q) by {
        if p.bb_occ.has(q) {
            let v = p.board@[q].spec_kind().value();
            assert(p.bb_pk@[v].has(q));
        }
        if k.has(q) {
            let v = choose|v: int| 0 <= v < 15 && #[trigger] p.bb_pk@[v].has(q);
            assert(p.bb_pk@[v].has(q));
        }
    }
    crate::bitboard::lemma_bitboard_ext(k, p.bb_occ);
}

} // verus!
