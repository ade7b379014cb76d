//! The moves of either side, in no particular order: all moves that obey
//! how the pieces move ("pseudo-legal" moves), the moves that may answer a
//! check, and the test for checkmate.
//!
//! A pseudo-legal move may leave the mover's own king attacked, may be a
//! pawn drop that gives mate, and may repeat a position.
//!
//! The generators add their moves to a list: the bounded list of 600
//! moves, which keeps what it has room for.  Where no move may be lost (the
//! test for checkmate, the count of positions), a list that comes back full
//! is filled again without a bound.  Each function that adds moves gives,
//! as a ghost value, the moves that it adds: those that satisfy its
//! predicate, each once.

use vstd::prelude::*;
use crate::shogi::{Side, Row, Square};
use crate::piece::{Piece, PieceKind};
use crate::moves::Move;
use crate::board::Hand;
use crate::bitboard::Bitboard;
use crate::bbs::{attacks, effect, pawn_drop_mask, jump_hits, melee_hits, ranged_hits, king_effect, knight_effect, queen_effect};
use crate::attack::attack_count;
use crate::position::lemma_undo_restores;
use crate::position::Position;
use crate::movelist::{MoveArray, MoveSink};

verus! {

/// Whether a piece of kind `pk` of `us` could never move again from `dst`:
/// a pawn or lance on the last rank, a knight on the last two ranks.
pub open spec fn dead_end(pk: PieceKind, us: Side, dst: Square) -> bool {
    match pk {
        PieceKind::Pawn | PieceKind::Lance => match us {
            Side::Hum => dst.r() == 0,
            Side::Com => dst.r() == 8,
        },
        PieceKind::Knight => match us {
            Side::Hum => dst.r() <= 1,
            Side::Com => dst.r() >= 7,
        },
        _ => false,
    }
}

/// Whether `sq` lies in the promotion zone of `us`.
pub open spec fn in_zone(us: Side, sq: Square) -> bool {
    Row(sq.r() as i32).in_promotion_zone(us)
}

/// Whether a piece of kind `pk` of `us` may go from `src` to `dst` with
/// (`promo`) or without promotion: with it, when the kind can promote and
/// one of the squares lies in the promotion zone; without it, when the piece
/// could still move from `dst`.
pub open spec fn promo_rule(pk: PieceKind, us: Side, src: Square, dst: Square, promo: bool) -> bool {
    if promo {
        pk.spec_is_promotable() && (in_zone(us, src) || in_zone(us, dst))
    } else {
        !dead_end(pk, us, dst)
    }
}

/// Whether `mv` is a plain move (no drop, no take-back mark) between two
/// different squares of the board.
pub open spec fn plain_walk(mv: Move) -> bool {
    mv.0 < 65536 && !mv.spec_is_drop() && mv.spec_src().on_board() && mv.spec_dst().on_board()
        && mv.spec_src() != mv.spec_dst()
}

/// Whether `mv` moves a piece of the side to move as the piece moves,
/// promoting or not as the rules allow.  What stands on the destination is
/// not looked at.
pub open spec fn walk_ok(pos: Position, mv: Move) -> bool {
    let us = pos.side_to_move;
    let src = mv.spec_src();
    let dst = mv.spec_dst();
    let pc = pos.board@[src.0 as int];
    &&& plain_walk(mv)
    &&& pc.is_of(us)
    &&& attacks(pc, src, pos.bb_occ, dst.0 as int)
    &&& promo_rule(pc.spec_kind(), us, src, dst, mv.spec_is_promotion())
}

/// Whether the file of square `q` holds no pawn of `us`.
pub open spec fn no_pawn_on_file(b: Seq<Piece>, us: Side, q: int) -> bool {
    forall|t: int| 0 <= t < 81 && t / 9 == q / 9 ==> b[t] != Piece::of(us, PieceKind::Pawn)
}

/// Whether `mv` is a drop of kind `pk` on a square of the board, without
/// take-back mark.
pub open spec fn plain_drop(mv: Move, pk: PieceKind) -> bool {
    mv.0 < 65536 && mv.spec_is_drop() && !mv.spec_is_promotion() && mv.from_field() == pk.value()
        && pk.spec_is_hand() && mv.spec_dst().on_board()
}

/// Whether `mv` drops a piece that the side to move holds, where the piece
/// could still move, and no second pawn on a file.  What stands on the
/// destination is not looked at.
pub open spec fn drop_ok(pos: Position, mv: Move) -> bool {
    let us = pos.side_to_move;
    let dst = mv.spec_dst();
    let pk = mv.dropped();
    &&& plain_drop(mv, pk)
    &&& pos.hands.of(us).count(pk) > 0
    &&& !dead_end(pk, us, dst)
    &&& (pk == PieceKind::Pawn ==> no_pawn_on_file(pos.board@, us, dst.0 as int))
}

/// Whether `mv` is pseudo-legal: a move of a piece of the side to move to a
/// square that holds no piece of that side, or a drop on an empty square.
pub open spec fn pseudo_legal(pos: Position, mv: Move) -> bool {
    (walk_ok(pos, mv) && !pos.board@[mv.spec_dst().0 as int].is_of(pos.side_to_move)) || (drop_ok(
        pos,
        mv,
    ) && pos.board@[mv.spec_dst().0 as int] == Piece::NoPiece)
}

/// `r` holds the first 600 moves of some list of the moves that satisfy
/// `p`, which holds each of them once and no other move.
pub open spec fn first_of_all(r: Seq<Move>, p: spec_fn(Move) -> bool) -> bool {
    exists|v: Seq<Move>|
        r == crate::movelist::capped(v) && v.no_duplicates() && forall|m: Move| #[trigger]
            v.contains(m) == p(m)
}

/// `new` holds the moves of `old` and those that satisfy `p`, and no
/// others.
pub open spec fn added(old: Seq<Move>, new: Seq<Move>, p: spec_fn(Move) -> bool) -> bool {
    forall|m: Move| #[trigger] new.contains(m) == (old.contains(m) || p(m))
}

/// Nothing occurs twice in `new`, provided that nothing occurs twice in
/// `old` and that no move of `old` satisfies `p`.
pub open spec fn apart(old: Seq<Move>, new: Seq<Move>, p: spec_fn(Move) -> bool) -> bool {
    old.no_duplicates() && (forall|m: Move| #[trigger] old.contains(m) ==> !p(m))
        ==> new.no_duplicates()
}

/// One more item that does not occur yet occurs once.
pub proof fn lemma_push_apart(s: Seq<Move>, m: Move)
    requires
        s.no_duplicates(),
        !s.contains(m),
    ensures
        s.push(m).no_duplicates(),
{
    let t = s.push(m);
    assert forall|i: int, j: int| 0 <= i < t.len() && 0 <= j < t.len() && i != j implies t[i]
        != t[j] by {
        if i < s.len() && j < s.len() {
            assert(s[i] != s[j]);
        } else if i < s.len() {
            assert(s.contains(s[i]));
        } else {
            assert(s.contains(s[j]));
        }
    }
}

/// What a list holds once the moves `g` have been added to the list `m0`:
/// the same when nothing was added, else what the list keeps of both.
pub open spec fn reached<S: MoveSink>(m0: Seq<Move>, m: Seq<Move>, g: Seq<Move>) -> bool {
    if g.len() == 0 {
        m == m0
    } else {
        m == S::kept(m0 + g)
    }
}

/// `new` is `old` with the moves `v` added at its end, as far as the list
/// keeps them; `v` holds the moves that satisfy `p`, each once.
pub open spec fn fills<S: MoveSink>(
    old: Seq<Move>,
    new: Seq<Move>,
    v: Seq<Move>,
    p: spec_fn(Move) -> bool,
) -> bool {
    &&& reached::<S>(old, new, v)
    &&& v.no_duplicates()
    &&& forall|m: Move| #[trigger] v.contains(m) == p(m)
}

/// Adding `g1` and then `vb` is adding both.
pub proof fn lemma_fill_more<S: MoveSink>(
    m0: Seq<Move>,
    m1: Seq<Move>,
    m2: Seq<Move>,
    g1: Seq<Move>,
    vb: Seq<Move>,
)
    requires
        reached::<S>(m0, m1, g1),
        reached::<S>(m1, m2, vb),
    ensures
        reached::<S>(m0, m2, g1 + vb),
{
    if vb.len() == 0 {
        assert(g1 + vb =~= g1);
    } else if g1.len() == 0 {
        assert(g1 + vb =~= vb);
    } else {
        S::lemma_kept(m0 + g1, vb);
        assert((m0 + g1) + vb =~= m0 + (g1 + vb));
    }
}

/// Adding `g1` and then one move is adding both.
pub proof fn lemma_fill_put<S: MoveSink>(
    m0: Seq<Move>,
    m1: Seq<Move>,
    m2: Seq<Move>,
    g1: Seq<Move>,
    x: Move,
)
    requires
        reached::<S>(m0, m1, g1),
        m2 == S::kept(m1.push(x)),
    ensures
        reached::<S>(m0, m2, g1.push(x)),
{
    assert(m1.push(x) =~= m1 + seq![x]);
    assert(g1.push(x) =~= g1 + seq![x]);
    lemma_fill_more::<S>(m0, m1, m2, g1, seq![x]);
}

/// What two lists put together hold, and when nothing occurs twice in
/// them.
pub proof fn lemma_model_step(g1: Seq<Move>, vb: Seq<Move>)
    ensures
        forall|m: Move| #[trigger] (g1 + vb).contains(m) == (g1.contains(m) || vb.contains(m)),
        g1.no_duplicates() && vb.no_duplicates() && (forall|m: Move| #[trigger]
            g1.contains(m) ==> !vb.contains(m)) ==> (g1 + vb).no_duplicates(),
{
    let t = g1 + vb;
    assert forall|m: Move| #[trigger] t.contains(m) == (g1.contains(m) || vb.contains(m)) by {
        if g1.contains(m) {
            let k = choose|k: int| 0 <= k < g1.len() && g1[k] == m;
            assert(t[k] == m);
        }
        if vb.contains(m) {
            let k = choose|k: int| 0 <= k < vb.len() && vb[k] == m;
            assert(t[g1.len() + k] == m);
        }
        if t.contains(m) {
            let k = choose|k: int| 0 <= k < t.len() && t[k] == m;
            if k < g1.len() {
                assert(g1[k] == m);
            } else {
                assert(vb[k - g1.len()] == m);
            }
        }
    }
    if g1.no_duplicates() && vb.no_duplicates() && (forall|m: Move| #[trigger]
        g1.contains(m) ==> !vb.contains(m)) {
        assert forall|i: int, j: int| 0 <= i < t.len() && 0 <= j < t.len() && i != j implies t[i]
            != t[j] by {
            if i < g1.len() && j < g1.len() {
                assert(g1[i] != g1[j]);
            } else if i >= g1.len() && j >= g1.len() {
                assert(vb[i - g1.len()] != vb[j - g1.len()]);
            } else if i < g1.len() {
                assert(g1.contains(g1[i]));
                assert(vb.contains(vb[j - g1.len()]));
            } else {
                assert(g1.contains(g1[j]));
                assert(vb.contains(vb[i - g1.len()]));
            }
        }
    }
}

/// What a sequence holds after one more item.
pub proof fn lemma_push_contains(s: Seq<Move>, m: Move)
    ensures
        forall|x: Move| #[trigger] s.push(m).contains(x) == (s.contains(x) || x == m),
{
    assert forall|x: Move| #[trigger] s.push(m).contains(x) == (s.contains(x) || x == m) by {
        if s.contains(x) {
            let k = choose|k: int| 0 <= k < s.len() && s[k] == x;
            assert(s.push(m)[k] == x);
        }
        if x == m {
            assert(s.push(m)[s.len() as int] == x);
        }
        if s.push(m).contains(x) {
            let k = choose|k: int| 0 <= k < s.push(m).len() && s.push(m)[k] == x;
            if k < s.len() {
                assert(s[k] == x);
            }
        }
    }
}

/// A plain move is fixed by its squares and its promotion flag.
pub proof fn lemma_walk_value(mv: Move)
    requires
        mv.0 < 65536,
        !mv.spec_is_drop(),
    ensures
        mv.0 == mv.spec_dst().0 + 128 * mv.spec_src().0 + (if mv.spec_is_promotion() {
            32768int
        } else {
            0int
        }),
{
    let v: u32 = mv.0;
    assert(v == v % 128 + 128 * ((v / 128) % 128) + 32768 * ((v / 32768) % 2)) by (bit_vector)
        requires
            v < 65536,
            (v / 16384) % 2 != 1,
    ;
}

/// A drop is fixed by its kind and its square.
pub proof fn lemma_drop_value(mv: Move)
    requires
        mv.0 < 65536,
        mv.spec_is_drop(),
        !mv.spec_is_promotion(),
    ensures
        mv.0 == mv.spec_dst().0 + 128 * mv.from_field() + 16384,
{
    let v: u32 = mv.0;
    assert(v == v % 128 + 128 * ((v / 128) % 128) + 16384) by (bit_vector)
        requires
            v < 65536,
            (v / 16384) % 2 == 1,
            (v / 32768) % 2 != 1,
    ;
}

/// Whether `mv` goes from `src` to a square of `dsts`, promoting or not as
/// the rules allow a piece of kind `pk` of `us`.
pub open spec fn walk_among(pk: PieceKind, us: Side, src: Square, dsts: Bitboard, mv: Move) -> bool {
    plain_walk(mv) && mv.spec_src() == src && dsts.has(mv.spec_dst().0 as int) && promo_rule(
        pk,
        us,
        src,
        mv.spec_dst(),
        mv.spec_is_promotion(),
    )
}

/// Adds the moves of a piece of kind `pk` of `us` from `src` to `dst`: with
/// promotion, without it, or both, as the rules allow.
pub fn emit_walk<S: MoveSink>(us: Side, pk: PieceKind, src: Square, dst: Square, mvs: &mut S) -> (g: Ghost<Seq<Move>>)
    requires
        src.on_board(),
        dst.on_board(),
        src != dst,
    ensures
        fills::<S>(old(mvs).held(), final(mvs).held(), g@, |m: Move|
                plain_walk(m) && m.spec_src() == src && m.spec_dst() == dst && promo_rule(
                    pk,
                    us,
                    src,
                    dst,
                    m.spec_is_promotion(),
                )),
{
    let promo: bool = pk.is_promotable() && (src.is_promotion_zone(us) || dst.is_promotion_zone(us));
    let r: i32 = dst.row().inner();
    let k: u32 = pk.inner();
    let dead: bool = if k == 1 || k == 2 {
        match us {
            Side::Hum => r == 0,
            Side::Com => r == 8,
        }
    } else if k == 3 {
        match us {
            Side::Hum => r <= 1,
            Side::Com => r >= 7,
        }
    } else {
        false
    };
    let ghost m0 = mvs.held();
    let ghost s0 = Seq::<Move>::empty();
    let ghost mut g: Seq<Move> = Seq::empty();
    if promo {
        let m: Move = Move::new_walk_promotion(src, dst);
        let ghost pre = mvs.held();
        mvs.put(m);
        proof {
            lemma_push_contains(s0, m);
            g = s0.push(m);
            lemma_fill_put::<S>(m0, pre, mvs.held(), s0, m);
        }
    }
    let ghost s1 = g;
    if !dead {
        let m: Move = Move::new_walk(src, dst);
        let ghost pre = mvs.held();
        mvs.put(m);
        proof {
            lemma_push_contains(s1, m);
            g = s1.push(m);
            lemma_fill_put::<S>(m0, pre, mvs.held(), s1, m);
        }
    }
    proof {
        let p = |m: Move|
            plain_walk(m) && m.spec_src() == src && m.spec_dst() == dst && promo_rule(
                pk,
                us,
                src,
                dst,
                m.spec_is_promotion(),
            );
        assert forall|m: Move| #[trigger] p(m) implies g.contains(m) by {
            lemma_walk_value(m);
        }
        {
            if promo {
                let m1 = s1[s1.len() - 1];
                assert(p(m1));
                assert(!s0.contains(m1));
                lemma_push_apart(s0, m1);
                lemma_push_contains(s0, m1);
            }
            if !dead {
                let m2 = g[g.len() - 1];
                assert(p(m2));
                assert(!s1.contains(m2));
                lemma_push_apart(s1, m2);
            }
        }
    }
    Ghost(g)
}

/// Adds the moves of a piece of kind `pk` of `us` from `src` to the squares
/// of `bb_dst`, which must not hold `src`.
pub fn emit_walks<S: MoveSink>(us: Side, pk: PieceKind, src: Square, bb_dst: Bitboard, mvs: &mut S) -> (g: Ghost<Seq<Move>>)
    requires
        src.on_board(),
        bb_dst.spec_is_valid(),
        !bb_dst.has(src.0 as int),
    ensures
        fills::<S>(old(mvs).held(), final(mvs).held(), g@, |m: Move| walk_among(pk, us, src, bb_dst, m)),
{
    let sqs: Vec<Square> = bb_dst.squares();
    let ghost m0 = mvs.held();
    let ghost s0 = Seq::<Move>::empty();
    let ghost mut g: Seq<Move> = Seq::empty();
    let mut j: usize = 0;
    while j < sqs.len()
        invariant
            s0.len() == 0,
            reached::<S>(m0, mvs.held(), g),
            j <= sqs@.len(),
            src.on_board(),
            !bb_dst.has(src.0 as int),
            forall|i: int| 0 <= i < sqs@.len() ==> (#[trigger] sqs@[i]).on_board() && bb_dst.has(sqs@[i].0 as int),
            forall|q: int| bb_dst.has(q) ==> sqs@.contains(Square(q as i32)),
            forall|a: int, b: int| 0 <= a < b < sqs@.len() ==> sqs@[a].0 < sqs@[b].0,
            apart(
                s0,
                g,
                |m: Move|
                    walk_among(pk, us, src, bb_dst, m) && exists|i: int|
                        0 <= i < j && sqs@[i] == m.spec_dst(),
            ),
            added(
                s0,
                g,
                |m: Move|
                    walk_among(pk, us, src, bb_dst, m) && exists|i: int|
                        0 <= i < j && sqs@[i] == m.spec_dst(),
            ),
        decreases sqs@.len() - j,
    {
        let dst: Square = sqs[j];
        let ghost s1 = g;
        let ghost m1 = mvs.held();
        let vb = emit_walk(us, pk, src, dst, mvs);
        proof {
            g = s1 + vb@;
            lemma_model_step(s1, vb@);
            lemma_fill_more::<S>(m0, m1, mvs.held(), s1, vb@);
        }
        proof {
            let p0 = |m: Move|
                walk_among(pk, us, src, bb_dst, m) && exists|i: int|
                    0 <= i < j && sqs@[i] == m.spec_dst();
            let p1 = |m: Move|
                plain_walk(m) && m.spec_src() == src && m.spec_dst() == dst && promo_rule(
                    pk,
                    us,
                    src,
                    dst,
                    m.spec_is_promotion(),
                );
            let p2 = |m: Move|
                walk_among(pk, us, src, bb_dst, m) && exists|i: int|
                    0 <= i < j + 1 && sqs@[i] == m.spec_dst();
            assert forall|m: Move| #[trigger] g.contains(m) implies s0.contains(m) || p2(m) by {
                if !s1.contains(m) {
                    assert(p1(m));
                    assert(sqs@[j as int] == m.spec_dst());
                } else if !s0.contains(m) {
                    assert(p0(m));
                    let i = choose|i: int| 0 <= i < j && sqs@[i] == m.spec_dst();
                    assert(0 <= i < j + 1 && sqs@[i] == m.spec_dst());
                }
            }
            assert forall|m: Move| #[trigger] p2(m) implies g.contains(m) by {
                let i = choose|i: int| 0 <= i < j + 1 && sqs@[i] == m.spec_dst();
                if i < j {
                    assert(p0(m));
                    assert(s1.contains(m));
                } else {
                    assert(p1(m));
                }
            }
            assert forall|m: Move| #[trigger] s0.contains(m) implies g.contains(m) by {
                assert(s1.contains(m));
            }
            {
                assert forall|m: Move| #[trigger] s0.contains(m) implies !p0(m) by {
                    if p0(m) {
                        let i = choose|i: int| 0 <= i < j && sqs@[i] == m.spec_dst();
                        assert(0 <= i < j + 1 && sqs@[i] == m.spec_dst());
                        assert(p2(m));
                    }
                }
                assert(s1.no_duplicates());
                assert forall|m: Move| #[trigger] s1.contains(m) implies !p1(m) by {
                    if p1(m) {
                        assert(0 <= j < j + 1 && sqs@[j as int] == m.spec_dst());
                        assert(p2(m));
                        assert(!s0.contains(m));
                        assert(p0(m));
                        let i = choose|i: int| 0 <= i < j && sqs@[i] == m.spec_dst();
                        assert(sqs@[i].0 < sqs@[j as int].0);
                    }
                }
                assert(g.no_duplicates());
            }
        }
        j += 1;
    }
    proof {
        let pj = |m: Move|
            walk_among(pk, us, src, bb_dst, m) && exists|i: int|
                0 <= i < sqs@.len() && sqs@[i] == m.spec_dst();
        let pf = |m: Move| walk_among(pk, us, src, bb_dst, m);
        assert forall|m: Move| #[trigger] pf(m) implies g.contains(m) by {
            let q = m.spec_dst().0 as int;
            assert(sqs@.contains(Square(q as i32)));
            let i = choose|i: int| 0 <= i < sqs@.len() && sqs@[i] == Square(q as i32);
            assert(sqs@[i] == m.spec_dst());
            assert(pj(m));
        }
        assert forall|m: Move| #[trigger] g.contains(m) implies s0.contains(m) || pf(m) by {
            if !s0.contains(m) {
                assert(pj(m));
            }
        }
        {
            assert forall|m: Move| #[trigger] s0.contains(m) implies !pj(m) by {}
            assert(g.no_duplicates());
        }
    }
    Ghost(g)
}

/// Adds the moves of a lance of `us` from `src` to the squares of `bb_dst`.
pub fn generate_moves_walk_helper_lance<S: MoveSink>(us: Side, src: Square, bb_dst: Bitboard, mvs: &mut S) -> (g: Ghost<Seq<Move>>)
    requires
        src.on_board(),
        bb_dst.spec_is_valid(),
        !bb_dst.has(src.0 as int),
    ensures
        fills::<S>(old(mvs).held(), final(mvs).held(), g@, |m: Move| walk_among(PieceKind::Lance, us, src, bb_dst, m)),
{
    emit_walks(us, PieceKind::Lance, src, bb_dst, mvs)
}

/// Adds the moves of a knight of `us` from `src` to the squares of
/// `bb_dst`.
pub fn generate_moves_walk_helper_knight<S: MoveSink>(us: Side, src: Square, bb_dst: Bitboard, mvs: &mut S) -> (g: Ghost<Seq<Move>>)
    requires
        src.on_board(),
        bb_dst.spec_is_valid(),
        !bb_dst.has(src.0 as int),
    ensures
        fills::<S>(old(mvs).held(), final(mvs).held(), g@, |m: Move| walk_among(PieceKind::Knight, us, src, bb_dst, m)),
{
    emit_walks(us, PieceKind::Knight, src, bb_dst, mvs)
}

/// Adds the moves of a silver, bishop or rook of `us` from `src` to the
/// squares of `bb_dst`: always without promotion, and with it when one of
/// the squares lies in the promotion zone.
pub fn generate_moves_walk_helper_promotable<S: MoveSink>(
    us: Side,
    src: Square,
    bb_dst: Bitboard,
    mvs: &mut S) -> (g: Ghost<Seq<Move>>)
    requires
        src.on_board(),
        bb_dst.spec_is_valid(),
        !bb_dst.has(src.0 as int),
    ensures
        fills::<S>(old(mvs).held(), final(mvs).held(), g@, |m: Move| walk_among(PieceKind::Silver, us, src, bb_dst, m)),
{
    emit_walks(us, PieceKind::Silver, src, bb_dst, mvs)
}

/// Adds the moves of a piece that cannot promote from `src` to the squares
/// of `bb_dst`.
pub fn generate_moves_walk_helper_unpromotable<S: MoveSink>(src: Square, bb_dst: Bitboard, mvs: &mut S) -> (g: Ghost<Seq<Move>>)
    requires
        src.on_board(),
        bb_dst.spec_is_valid(),
        !bb_dst.has(src.0 as int),
    ensures
        fills::<S>(old(mvs).held(), final(mvs).held(), g@, |m: Move| walk_among(PieceKind::Gold, Side::Hum, src, bb_dst, m)),
{
    emit_walks(Side::Hum, PieceKind::Gold, src, bb_dst, mvs)
}

/// Whether `mv` moves a piece of kind `pk` of the side to move, as the
/// rules allow, to a square of `target`.
pub open spec fn walk_of_kind(pos: Position, target: Bitboard, pk: PieceKind, mv: Move) -> bool {
    walk_ok(pos, mv) && target.has(mv.spec_dst().0 as int) && pos.board@[mv.spec_src().0 as int].spec_kind()
        == pk
}

/// Adds the moves of the pieces of kind `pk` of the side to move to the
/// squares of `bb_target`, which must hold no piece of that side.
pub fn generate_moves_walk<S: MoveSink>(pos: &Position, bb_target: Bitboard, pk: PieceKind, mvs: &mut S) -> (g: Ghost<Seq<Move>>)
    requires
        pos.bb_ok(),
        pk.is_piece(),
        bb_target.spec_is_valid(),
        forall|q: int| bb_target.has(q) ==> !pos.board@[q].is_of(pos.side_to_move),
    ensures
        fills::<S>(old(mvs).held(), final(mvs).held(), g@, |m: Move| walk_of_kind(*pos, bb_target, pk, m)),
{
    let us: Side = pos.side_to_move();
    let bb_occ: Bitboard = pos.bb_occupied();
    let bb_pc: Bitboard = pos.bb_piece(us, pk);
    let srcs: Vec<Square> = bb_pc.squares();
    let pc: Piece = Piece::new(us, pk);
    let k: u32 = pk.inner();
    let ghost m0 = mvs.held();
    let ghost s0 = Seq::<Move>::empty();
    let ghost mut g: Seq<Move> = Seq::empty();
    let mut i: usize = 0;
    while i < srcs.len()
        invariant
            s0.len() == 0,
            reached::<S>(m0, mvs.held(), g),
            i <= srcs@.len(),
            pos.bb_ok(),
            pk.is_piece(),
            k == pk.value(),
            us == pos.side_to_move,
            pc == Piece::of(us, pk),
            bb_occ == pos.bb_occ,
            bb_target.spec_is_valid(),
            forall|q: int| bb_target.has(q) ==> !pos.board@[q].is_of(pos.side_to_move),
            forall|q: int| bb_pc.has(q) == (0 <= q < 81 && pos.board@[q] == Piece::of(us, pk)),
            forall|j: int| 0 <= j < srcs@.len() ==> (#[trigger] srcs@[j]).on_board() && bb_pc.has(srcs@[j].0 as int),
            forall|q: int| bb_pc.has(q) ==> srcs@.contains(Square(q as i32)),
            forall|a: int, b: int| 0 <= a < b < srcs@.len() ==> srcs@[a].0 < srcs@[b].0,
            apart(
                s0,
                g,
                |m: Move|
                    walk_of_kind(*pos, bb_target, pk, m) && exists|j: int|
                        0 <= j < i && srcs@[j] == m.spec_src(),
            ),
            added(
                s0,
                g,
                |m: Move|
                    walk_of_kind(*pos, bb_target, pk, m) && exists|j: int|
                        0 <= j < i && srcs@[j] == m.spec_src(),
            ),
        decreases srcs@.len() - i,
    {
        let src: Square = srcs[i];
        let bb_dst: Bitboard = bb_target.and(effect(pc, src, bb_occ));
        let ghost s1 = g;
        let ghost m1 = mvs.held();
        let vb = if k == 1 {
            emit_walks(us, PieceKind::Pawn, src, bb_dst, mvs)
        } else if k == 2 {
            generate_moves_walk_helper_lance(us, src, bb_dst, mvs)
        } else if k == 3 {
            generate_moves_walk_helper_knight(us, src, bb_dst, mvs)
        } else if k == 4 || k == 5 || k == 6 {
            generate_moves_walk_helper_promotable(us, src, bb_dst, mvs)
        } else {
            generate_moves_walk_helper_unpromotable(src, bb_dst, mvs)
        };
        proof {
            g = s1 + vb@;
            lemma_model_step(s1, vb@);
            lemma_fill_more::<S>(m0, m1, mvs.held(), s1, vb@);
        }
        proof {
            let p0 = |m: Move|
                walk_of_kind(*pos, bb_target, pk, m) && exists|j: int|
                    0 <= j < i && srcs@[j] == m.spec_src();
            let p2 = |m: Move|
                walk_of_kind(*pos, bb_target, pk, m) && exists|j: int|
                    0 <= j < i + 1 && srcs@[j] == m.spec_src();
            let here = |m: Move| walk_of_kind(*pos, bb_target, pk, m) && m.spec_src() == src;
            let rep: PieceKind = if k == 1 {
                PieceKind::Pawn
            } else if k == 2 {
                PieceKind::Lance
            } else if k == 3 {
                PieceKind::Knight
            } else if k == 4 || k == 5 || k == 6 {
                PieceKind::Silver
            } else {
                PieceKind::Gold
            };
            let rs: Side = if k <= 6 { us } else { Side::Hum };
            assert forall|m: Move| here(m) == walk_among(rep, rs, src, bb_dst, m) by {
                assert(pos.board@[src.0 as int] == pc);
            }
            assert forall|m: Move| #[trigger] g.contains(m) implies s0.contains(m) || p2(m) by {
                if !s1.contains(m) {
                    assert(walk_among(rep, rs, src, bb_dst, m));
                    assert(here(m));
                    assert(srcs@[i as int] == m.spec_src());
                } else if !s0.contains(m) {
                    assert(p0(m));
                    let j = choose|j: int| 0 <= j < i && srcs@[j] == m.spec_src();
                    assert(0 <= j < i + 1 && srcs@[j] == m.spec_src());
                }
            }
            assert forall|m: Move| #[trigger] p2(m) implies g.contains(m) by {
                let j = choose|j: int| 0 <= j < i + 1 && srcs@[j] == m.spec_src();
                if j < i {
                    assert(p0(m));
                    assert(s1.contains(m));
                } else {
                    assert(here(m));
                    assert(walk_among(rep, rs, src, bb_dst, m));
                }
            }
            assert forall|m: Move| #[trigger] s0.contains(m) implies g.contains(m) by {
                assert(s1.contains(m));
            }
            {
                assert forall|m: Move| #[trigger] s0.contains(m) implies !p0(m) by {
                    if p0(m) {
                        let j = choose|j: int| 0 <= j < i && srcs@[j] == m.spec_src();
                        assert(0 <= j < i + 1 && srcs@[j] == m.spec_src());
                        assert(p2(m));
                    }
                }
                assert(s1.no_duplicates());
                assert forall|m: Move| #[trigger] s1.contains(m) implies !walk_among(
                    rep,
                    rs,
                    src,
                    bb_dst,
                    m,
                ) by {
                    if walk_among(rep, rs, src, bb_dst, m) {
                        assert(here(m));
                        assert(0 <= i < i + 1 && srcs@[i as int] == m.spec_src());
                        assert(p2(m));
                        assert(!s0.contains(m));
                        assert(p0(m));
                        let j = choose|j: int| 0 <= j < i && srcs@[j] == m.spec_src();
                        assert(srcs@[j].0 < srcs@[i as int].0);
                    }
                }
                assert(g.no_duplicates());
            }
        }
        i += 1;
    }
    proof {
        let pj = |m: Move|
            walk_of_kind(*pos, bb_target, pk, m) && exists|j: int|
                0 <= j < srcs@.len() && srcs@[j] == m.spec_src();
        let pf = |m: Move| walk_of_kind(*pos, bb_target, pk, m);
        assert forall|m: Move| #[trigger] pf(m) implies g.contains(m) by {
            let q = m.spec_src().0 as int;
            assert(bb_pc.has(q));
            assert(srcs@.contains(Square(q as i32)));
            let j = choose|j: int| 0 <= j < srcs@.len() && srcs@[j] == Square(q as i32);
            assert(srcs@[j] == m.spec_src());
            assert(pj(m));
        }
        assert forall|m: Move| #[trigger] g.contains(m) implies s0.contains(m) || pf(m) by {
            if !s0.contains(m) {
                assert(pj(m));
            }
        }
        {
            assert forall|m: Move| #[trigger] s0.contains(m) implies !pj(m) by {}
            assert(g.no_duplicates());
        }
    }
    Ghost(g)
}

/// Adds the moves of the pawns of the side to move to the squares of
/// `bb_target`, which must hold no piece of that side.
pub fn generate_moves_walk_pawn<S: MoveSink>(pos: &Position, bb_target: Bitboard, mvs: &mut S) -> (g: Ghost<Seq<Move>>)
    requires
        pos.bb_ok(),
        bb_target.spec_is_valid(),
        forall|q: int| bb_target.has(q) ==> !pos.board@[q].is_of(pos.side_to_move),
    ensures
        fills::<S>(old(mvs).held(), final(mvs).held(), g@, |m: Move| walk_of_kind(*pos, bb_target, PieceKind::Pawn, m)),
{
    generate_moves_walk(pos, bb_target, PieceKind::Pawn, mvs)
}

/// Whether `mv` drops kind `pk` on a square of `dsts`.
pub open spec fn drop_among(pk: PieceKind, dsts: Bitboard, mv: Move) -> bool {
    plain_drop(mv, pk) && dsts.has(mv.spec_dst().0 as int)
}

/// Adds the drops of kind `pk` on the squares of `bb_dst`.
pub fn emit_drops<S: MoveSink>(pk: PieceKind, bb_dst: Bitboard, mvs: &mut S) -> (g: Ghost<Seq<Move>>)
    requires
        pk.is_hand(),
        bb_dst.spec_is_valid(),
    ensures
        fills::<S>(old(mvs).held(), final(mvs).held(), g@, |m: Move| drop_among(pk, bb_dst, m)),
{
    let sqs: Vec<Square> = bb_dst.squares();
    let ghost m0 = mvs.held();
    let ghost s0 = Seq::<Move>::empty();
    let ghost mut g: Seq<Move> = Seq::empty();
    let mut j: usize = 0;
    while j < sqs.len()
        invariant
            s0.len() == 0,
            reached::<S>(m0, mvs.held(), g),
            j <= sqs@.len(),
            pk.is_hand(),
            forall|i: int| 0 <= i < sqs@.len() ==> (#[trigger] sqs@[i]).on_board() && bb_dst.has(sqs@[i].0 as int),
            forall|q: int| bb_dst.has(q) ==> sqs@.contains(Square(q as i32)),
            forall|a: int, b: int| 0 <= a < b < sqs@.len() ==> sqs@[a].0 < sqs@[b].0,
            apart(
                s0,
                g,
                |m: Move|
                    drop_among(pk, bb_dst, m) && exists|i: int| 0 <= i < j && sqs@[i] == m.spec_dst(),
            ),
            added(
                s0,
                g,
                |m: Move|
                    drop_among(pk, bb_dst, m) && exists|i: int| 0 <= i < j && sqs@[i] == m.spec_dst(),
            ),
        decreases sqs@.len() - j,
    {
        let dst: Square = sqs[j];
        let ghost s1 = g;
        let ghost m1 = mvs.held();
        let mv: Move = Move::new_drop(pk, dst);
        mvs.put(mv);
        proof {
            lemma_push_contains(s1, mv);
            g = s1.push(mv);
            lemma_fill_put::<S>(m0, m1, mvs.held(), s1, mv);
            let p0 = |m: Move|
                drop_among(pk, bb_dst, m) && exists|i: int| 0 <= i < j && sqs@[i] == m.spec_dst();
            let p2 = |m: Move|
                drop_among(pk, bb_dst, m) && exists|i: int|
                    0 <= i < j + 1 && sqs@[i] == m.spec_dst();
            assert forall|m: Move| #[trigger] g.contains(m) implies s0.contains(m) || p2(m) by {
                if !s1.contains(m) {
                    assert(m == mv);
                    assert(sqs@[j as int] == m.spec_dst());
                } else if !s0.contains(m) {
                    assert(p0(m));
                    let i = choose|i: int| 0 <= i < j && sqs@[i] == m.spec_dst();
                    assert(0 <= i < j + 1 && sqs@[i] == m.spec_dst());
                }
            }
            assert forall|m: Move| #[trigger] p2(m) implies g.contains(m) by {
                let i = choose|i: int| 0 <= i < j + 1 && sqs@[i] == m.spec_dst();
                if i < j {
                    assert(p0(m));
                    assert(s1.contains(m));
                } else {
                    lemma_drop_value(m);
                    assert(m == mv);
                }
            }
            assert forall|m: Move| #[trigger] s0.contains(m) implies g.contains(m) by {
                assert(s1.contains(m));
            }
            {
                assert forall|m: Move| #[trigger] s0.contains(m) implies !p0(m) by {
                    if p0(m) {
                        let i = choose|i: int| 0 <= i < j && sqs@[i] == m.spec_dst();
                        assert(0 <= i < j + 1 && sqs@[i] == m.spec_dst());
                        assert(p2(m));
                    }
                }
                assert(s1.no_duplicates());
                assert(0 <= j < j + 1 && sqs@[j as int] == mv.spec_dst());
                assert(p2(mv));
                assert(!s1.contains(mv)) by {
                    if s1.contains(mv) {
                        assert(!s0.contains(mv));
                        assert(p0(mv));
                        let i = choose|i: int| 0 <= i < j && sqs@[i] == mv.spec_dst();
                        assert(sqs@[i].0 < sqs@[j as int].0);
                    }
                }
                lemma_push_apart(s1, mv);
            }
        }
        j += 1;
    }
    proof {
        let pj = |m: Move|
            drop_among(pk, bb_dst, m) && exists|i: int|
                0 <= i < sqs@.len() && sqs@[i] == m.spec_dst();
        let pf = |m: Move| drop_among(pk, bb_dst, m);
        assert forall|m: Move| #[trigger] pf(m) implies g.contains(m) by {
            let q = m.spec_dst().0 as int;
            assert(sqs@.contains(Square(q as i32)));
            let i = choose|i: int| 0 <= i < sqs@.len() && sqs@[i] == Square(q as i32);
            assert(sqs@[i] == m.spec_dst());
            assert(pj(m));
        }
        assert forall|m: Move| #[trigger] g.contains(m) implies s0.contains(m) || pf(m) by {
            if !s0.contains(m) {
                assert(pj(m));
            }
        }
        {
            assert forall|m: Move| #[trigger] s0.contains(m) implies !pj(m) by {}
            assert(g.no_duplicates());
        }
    }
    Ghost(g)
}

/// Adds the pawn drops of the side to move on the squares of `bb_target`:
/// not on a file that holds a pawn of that side, and not on the last rank.
pub fn generate_moves_drop_pawn<S: MoveSink>(pos: &Position, bb_target: Bitboard, mvs: &mut S) -> (g: Ghost<Seq<Move>>)
    requires
        pos.bb_ok(),
        bb_target.spec_is_valid(),
    ensures
        fills::<S>(old(mvs).held(), final(mvs).held(), g@, |m: Move|
                drop_among(PieceKind::Pawn, bb_target, m) && !dead_end(
                    PieceKind::Pawn,
                    pos.side_to_move,
                    m.spec_dst(),
                ) && no_pawn_on_file(pos.board@, pos.side_to_move, m.spec_dst().0 as int)),
{
    let us: Side = pos.side_to_move();
    let pawns: Bitboard = pos.bb_piece(us, PieceKind::Pawn);
    let mask: Bitboard = pawn_drop_mask(us, pawns);
    let bb_dst: Bitboard = bb_target.and(mask);
    proof {
        assert forall|q: int| 0 <= q < 81 implies mask.has(q) == (no_pawn_on_file(pos.board@, us, q)
            && !dead_end(PieceKind::Pawn, us, Square(q as i32))) by {
            if no_pawn_on_file(pos.board@, us, q) {
                assert forall|t: int| 0 <= t < 81 && t / 9 == q / 9 implies !pawns.has(t) by {}
            }
            if mask.has(q) {
                assert forall|t: int| 0 <= t < 81 && t / 9 == q / 9 implies pos.board@[t]
                    != Piece::of(us, PieceKind::Pawn) by {
                    assert(!pawns.has(t));
                }
            }
        }
    }
    emit_drops(PieceKind::Pawn, bb_dst, mvs)
}

/// Adds the lance drops of `us` on the squares of `bb_target`, not on the
/// last rank.
pub fn generate_moves_drop_lance<S: MoveSink>(us: Side, bb_target: Bitboard, mvs: &mut S) -> (g: Ghost<Seq<Move>>)
    requires
        bb_target.spec_is_valid(),
    ensures
        fills::<S>(old(mvs).held(), final(mvs).held(), g@, |m: Move|
                drop_among(PieceKind::Lance, bb_target, m) && !dead_end(
                    PieceKind::Lance,
                    us,
                    m.spec_dst(),
                )),
{
    let bb_mask: Bitboard = match us {
        Side::Hum => crate::bbs::forward_rows(Side::Com, Row(0)),
        Side::Com => crate::bbs::forward_rows(Side::Hum, Row(8)),
    };
    emit_drops(PieceKind::Lance, bb_target.and(bb_mask), mvs)
}

/// Adds the knight drops of `us` on the squares of `bb_target`, not on the
/// last two ranks.
pub fn generate_moves_drop_knight<S: MoveSink>(us: Side, bb_target: Bitboard, mvs: &mut S) -> (g: Ghost<Seq<Move>>)
    requires
        bb_target.spec_is_valid(),
    ensures
        fills::<S>(old(mvs).held(), final(mvs).held(), g@, |m: Move|
                drop_among(PieceKind::Knight, bb_target, m) && !dead_end(
                    PieceKind::Knight,
                    us,
                    m.spec_dst(),
                )),
{
    let bb_mask: Bitboard = match us {
        Side::Hum => crate::bbs::forward_rows(Side::Com, Row(1)),
        Side::Com => crate::bbs::forward_rows(Side::Hum, Row(7)),
    };
    emit_drops(PieceKind::Knight, bb_target.and(bb_mask), mvs)
}

/// The place of the kind with value `f` in the order in which drops are
/// generated: pawn, lance, knight, silver, gold, bishop, rook.
pub open spec fn drop_rank(f: int) -> int {
    if f == 1 {
        0
    } else if f == 2 {
        1
    } else if f == 3 {
        2
    } else if f == 4 {
        3
    } else if f == 7 {
        4
    } else if f == 5 {
        5
    } else if f == 6 {
        6
    } else {
        7
    }
}

/// Whether `mv` drops kind `pk` on a square of `target` where the piece
/// could still move, and not a second pawn on a file.
pub open spec fn drop_of_kind(pos: Position, pk: PieceKind, target: Bitboard, mv: Move) -> bool {
    drop_among(pk, target, mv) && !dead_end(pk, pos.side_to_move, mv.spec_dst()) && (pk
        == PieceKind::Pawn ==> no_pawn_on_file(pos.board@, pos.side_to_move, mv.spec_dst().0 as int))
}

/// Adds the drops of kind `pk` of the side to move on the squares of
/// `bb_target`; whether the side holds the kind is not looked at.
pub fn drops_of_kind<S: MoveSink>(pos: &Position, pk: PieceKind, bb_target: Bitboard, mvs: &mut S) -> (g:
    Ghost<Seq<Move>>)
    requires
        pos.bb_ok(),
        pk.is_hand(),
        bb_target.spec_is_valid(),
    ensures
        fills::<S>(
            old(mvs).held(),
            final(mvs).held(),
            g@,
            |m: Move| drop_of_kind(*pos, pk, bb_target, m),
        ),
{
    let us: Side = pos.side_to_move();
    let k: u32 = pk.inner();
    if k == 1 {
        generate_moves_drop_pawn(pos, bb_target, mvs)
    } else if k == 2 {
        generate_moves_drop_lance(us, bb_target, mvs)
    } else if k == 3 {
        generate_moves_drop_knight(us, bb_target, mvs)
    } else {
        emit_drops(pk, bb_target, mvs)
    }
}

/// Adds the drops of the side to move on the squares of `bb_target`.
pub fn generate_moves_drop<S: MoveSink>(pos: &Position, bb_target: Bitboard, mvs: &mut S) -> (g: Ghost<
    Seq<Move>,
>)
    requires
        pos.bb_ok(),
        bb_target.spec_is_valid(),
    ensures
        fills::<S>(
            old(mvs).held(),
            final(mvs).held(),
            g@,
            |m: Move| drop_ok(*pos, m) && bb_target.has(m.spec_dst().0 as int),
        ),
{
    let us: Side = pos.side_to_move();
    let hand: Hand = pos.hand(us);
    let kinds: [PieceKind; 7] = [
        PieceKind::Pawn,
        PieceKind::Lance,
        PieceKind::Knight,
        PieceKind::Silver,
        PieceKind::Gold,
        PieceKind::Bishop,
        PieceKind::Rook,
    ];
    let ghost m0 = mvs.held();
    let ghost mut g: Seq<Move> = Seq::empty();
    let mut i: usize = 0;
    while i < 7
        invariant
            i <= 7,
            pos.bb_ok(),
            bb_target.spec_is_valid(),
            us == pos.side_to_move,
            hand == pos.hands.of(us),
            forall|j: int| 0 <= j < 7 ==> (#[trigger] kinds@[j]).spec_is_hand() && drop_rank(kinds@[j].value()) == j,
            reached::<S>(m0, mvs.held(), g),
            g.no_duplicates(),
            forall|m: Move|
                #[trigger] g.contains(m) == (drop_ok(*pos, m) && bb_target.has(m.spec_dst().0 as int)
                    && drop_rank(m.from_field()) < i),
        decreases 7 - i,
    {
        let pk: PieceKind = kinds[i];
        let ghost s1 = g;
        let held: bool = hand.get(pk) > 0;
        if held {
            let ghost m1 = mvs.held();
            let vb = drops_of_kind(pos, pk, bb_target, mvs);
            proof {
                g = s1 + vb@;
                lemma_model_step(s1, vb@);
                lemma_fill_more::<S>(m0, m1, mvs.held(), s1, vb@);
                assert forall|m: Move| #[trigger] s1.contains(m) implies !vb@.contains(m) by {
                    if vb@.contains(m) {
                        assert(drop_of_kind(*pos, pk, bb_target, m));
                        assert(m.from_field() == pk.value());
                    }
                }
            }
        }
        proof {
            assert forall|m: Move|
                #[trigger] g.contains(m) == (drop_ok(*pos, m) && bb_target.has(m.spec_dst().0 as int)
                    && drop_rank(m.from_field()) < i + 1) by {
                let d = m.dropped();
                if drop_ok(*pos, m) {
                    assert(d.value() == m.from_field());
                    if drop_rank(m.from_field()) == i {
                        assert(d == pk);
                    }
                }
                if held {
                    if drop_of_kind(*pos, pk, bb_target, m) {
                        assert(m.from_field() == pk.value());
                        assert(d == pk);
                    }
                }
            }
        }
        i += 1;
    }
    proof {
        assert forall|m: Move|
            #[trigger] g.contains(m) == (drop_ok(*pos, m) && bb_target.has(m.spec_dst().0 as int)) by {
            if drop_ok(*pos, m) {
                assert(m.dropped().value() == m.from_field());
            }
        }
    }
    Ghost(g)
}

/// A bounded list that was empty and has taken the moves `g` holds the
/// first 600 of them: all of them, each once, when it holds fewer than 600.
pub proof fn lemma_first_of_all(r: Seq<Move>, g: Seq<Move>)
    requires
        reached::<MoveArray>(Seq::<Move>::empty(), r, g),
        g.no_duplicates(),
    ensures
        r == crate::movelist::capped(g),
        r.no_duplicates(),
        r.len() < 600 ==> r == g,
        g.len() <= 600 ==> r == g,
        forall|m: Move| #[trigger] r.contains(m) ==> g.contains(m),
{
    assert(Seq::<Move>::empty() + g =~= g);
    assert forall|m: Move| #[trigger] r.contains(m) implies g.contains(m) by {
        let k = choose|k: int| 0 <= k < r.len() && r[k] == m;
        assert(g[k] == m);
    }
    if g.len() > 600 {
        assert forall|i: int, j: int| 0 <= i < r.len() && 0 <= j < r.len() && i != j implies r[i]
            != r[j] by {
            assert(r[i] == g[i] && r[j] == g[j]);
        }
    }
}

/// All pseudo-legal moves of the side to move, each once, in no particular
/// order: the bounded list when it has room left, and else a list without a
/// bound, so that no move is lost.
pub fn all_moves(pos: &Position) -> (mvs: Vec<Move>)
    requires
        pos.bb_ok(),
    ensures
        forall|m: Move| mvs@.contains(m) == pseudo_legal(*pos, m),
        mvs@.no_duplicates(),
{
    let mut r: MoveArray = MoveArray::new();
    let g = fill_moves(pos, &mut r);
    proof {
        lemma_first_of_all(r@, g@);
    }
    if r.len() < 600 {
        r.to_vec()
    } else {
        let mut v: Vec<Move> = Vec::new();
        let h = fill_moves(pos, &mut v);
        proof {
            assert(Seq::<Move>::empty() + h@ =~= h@);
        }
        v
    }
}

/// The moves that are tried as answers to a check, each once, in no
/// particular order: the bounded list when it has room left, and else a
/// list without a bound, so that no move is lost.
pub fn evasion_moves(pos: &Position, naitou: bool) -> (mvs: Vec<Move>)
    requires
        pos.wf(),
    ensures
        forall|m: Move| mvs@.contains(m) == evasion(*pos, naitou, m),
        mvs@.no_duplicates(),
{
    let mut r: MoveArray = MoveArray::new();
    let g = fill_evasions(pos, naitou, &mut r);
    proof {
        lemma_first_of_all(r@, g@);
    }
    if r.len() < 600 {
        r.to_vec()
    } else {
        let mut v: Vec<Move> = Vec::new();
        let h = fill_evasions(pos, naitou, &mut v);
        proof {
            assert(Seq::<Move>::empty() + h@ =~= h@);
        }
        v
    }
}


/// All pseudo-legal moves of the side to move, each once, in no particular
/// order, as far as 600 moves go.
pub fn generate_moves(pos: &Position) -> (r: MoveArray)
    requires
        pos.bb_ok(),
    ensures
        forall|m: Move| r@.contains(m) ==> pseudo_legal(*pos, m),
        r@.len() < 600 ==> forall|m: Move| pseudo_legal(*pos, m) ==> r@.contains(m),
        first_of_all(r@, |m: Move| pseudo_legal(*pos, m)),
        r@.no_duplicates(),
{
    let mut r: MoveArray = MoveArray::new();
    let g = fill_moves(pos, &mut r);
    proof {
        lemma_first_of_all(r@, g@);
    }
    r
}

/// Adds the moves of the pieces of the side to move to the squares of
/// `bb_target`, which must hold no piece of that side, each once, in no
/// particular order.
pub fn walks_onto<S: MoveSink>(pos: &Position, bb_target: Bitboard, mvs: &mut S) -> (g: Ghost<Seq<Move>>)
    requires
        pos.bb_ok(),
        bb_target.spec_is_valid(),
        forall|q: int| bb_target.has(q) ==> !pos.board@[q].is_of(pos.side_to_move),
    ensures
        fills::<S>(
            old(mvs).held(),
            final(mvs).held(),
            g@,
            |m: Move| walk_ok(*pos, m) && bb_target.has(m.spec_dst().0 as int),
        ),
{
    let us: Side = pos.side_to_move();
    let ghost m0 = mvs.held();
    let first = generate_moves_walk_pawn(pos, bb_target, mvs);
    let ghost mut g: Seq<Move> = first@;
    let mut k: u32 = 2;
    while k <= 14
        invariant
            reached::<S>(m0, mvs.held(), g),
            2 <= k <= 15,
            pos.bb_ok(),
            us == pos.side_to_move,
            bb_target.spec_is_valid(),
            forall|q: int| bb_target.has(q) ==> !pos.board@[q].is_of(us),
            g.no_duplicates(),
            forall|m: Move|
                #[trigger] g.contains(m) == (walk_ok(*pos, m) && bb_target.has(m.spec_dst().0 as int)
                    && pos.board@[m.spec_src().0 as int].spec_kind().value() < k),
        decreases 15 - k,
    {
        let pk: PieceKind = PieceKind::from_inner(k);
        let ghost s1 = g;
        let ghost m1 = mvs.held();
        let vb = generate_moves_walk(pos, bb_target, pk, mvs);
        proof {
            g = s1 + vb@;
            lemma_model_step(s1, vb@);
            lemma_fill_more::<S>(m0, m1, mvs.held(), s1, vb@);
        }
        proof {
            let p = |m: Move| walk_of_kind(*pos, bb_target, pk, m);
            assert forall|m: Move| #[trigger] s1.contains(m) implies !p(m) by {
                assert(pk.value() == k);
            }
            assert(g.no_duplicates());
            assert forall|m: Move|
                #[trigger] g.contains(m) == (walk_ok(*pos, m) && bb_target.has(m.spec_dst().0 as int)
                    && pos.board@[m.spec_src().0 as int].spec_kind().value() < k + 1) by {
                assert(g.contains(m) == (s1.contains(m) || p(m)));
                assert(s1.contains(m) == (walk_ok(*pos, m) && bb_target.has(m.spec_dst().0 as int)
                    && pos.board@[m.spec_src().0 as int].spec_kind().value() < k));
                if g.contains(m) {
                    if p(m) {
                        assert(pos.board@[m.spec_src().0 as int].spec_kind() == pk);
                        assert(pk.value() == k);
                    }
                }
                if walk_ok(*pos, m) && bb_target.has(m.spec_dst().0 as int)
                    && pos.board@[m.spec_src().0 as int].spec_kind().value() < k + 1 {
                    let kind = pos.board@[m.spec_src().0 as int].spec_kind();
                    assert(PieceKind::of_value(kind.value()) == kind);
                    if kind.value() < k {
                        assert(s1.contains(m));
                    } else {
                        assert(kind == pk);
                        assert(p(m));
                    }
                }
            }
        }
        k += 1;
    }
    proof {
        assert forall|m: Move|
            #[trigger] g.contains(m) == (walk_ok(*pos, m) && bb_target.has(m.spec_dst().0 as int)) by {
            assert(pos.board@[m.spec_src().0 as int].spec_kind().value() < 15);
        }
    }
    Ghost(g)
}

/// Whether `mv` is a pseudo-legal move that takes a piece.
pub open spec fn capture(pos: Position, mv: Move) -> bool {
    walk_ok(pos, mv) && pos.board@[mv.spec_dst().0 as int].is_of(pos.side_to_move.opp())
}

/// The pseudo-legal moves of the side to move that take a piece, in no
/// particular order, as far as 600 moves go.
pub fn generate_captures(pos: &Position) -> (r: MoveArray)
    requires
        pos.bb_ok(),
    ensures
        forall|m: Move| r@.contains(m) ==> capture(*pos, m),
        r@.len() < 600 ==> forall|m: Move| capture(*pos, m) ==> r@.contains(m),
        first_of_all(r@, |m: Move| capture(*pos, m)),
        r@.no_duplicates(),
{
    let them: Side = pos.side_to_move().inv();
    let bb_target: Bitboard = pos.bb_occupied_side(them);
    let mut r: MoveArray = MoveArray::new();
    let g = walks_onto(pos, bb_target, &mut r);
    proof {
        assert forall|m: Move| #[trigger] g@.contains(m) == capture(*pos, m) by {
            if capture(*pos, m) {
                assert(bb_target.has(m.spec_dst().0 as int));
            }
        }
        lemma_first_of_all(r@, g@);
    }
    r
}

/// Adds all pseudo-legal moves of the side to move, each once, in no
/// particular order.
pub fn fill_moves<S: MoveSink>(pos: &Position, mvs: &mut S) -> (g: Ghost<Seq<Move>>)
    requires
        pos.bb_ok(),
    ensures
        fills::<S>(old(mvs).held(), final(mvs).held(), g@, |m: Move| pseudo_legal(*pos, m)),
{
    let us: Side = pos.side_to_move();
    let bb_target: Bitboard = pos.bb_occupied_side(us).not();
    let ghost m0 = mvs.held();
    let walks = walks_onto(pos, bb_target, mvs);
    let ghost mut g: Seq<Move> = walks@;
    assert(forall|q: int| bb_target.has(q) == (0 <= q < 81 && !pos.board@[q].is_of(us)));
    let ghost s2 = g;
    let ghost m2 = mvs.held();
    let blank: Bitboard = pos.bb_blank();
    let vd = generate_moves_drop(pos, blank, mvs);
    proof {
        g = s2 + vd@;
        lemma_model_step(s2, vd@);
        lemma_fill_more::<S>(m0, m2, mvs.held(), s2, vd@);
    }
    proof {
        let p = |m: Move| drop_ok(*pos, m) && blank.has(m.spec_dst().0 as int);
        assert forall|m: Move| #[trigger] s2.contains(m) implies !p(m) by {}
        assert(g.no_duplicates());
        assert forall|m: Move| g.contains(m) == pseudo_legal(*pos, m) by {
            if g.contains(m) {
                assert(s2.contains(m) || p(m));
            }
            if pseudo_legal(*pos, m) {
                if walk_ok(*pos, m) && !pos.board@[m.spec_dst().0 as int].is_of(us) {
                    assert(pos.board@[m.spec_src().0 as int].spec_kind().value() < 15);
                    assert(bb_target.has(m.spec_dst().0 as int));
                    assert(s2.contains(m));
                } else {
                    assert(drop_ok(*pos, m));
                    assert(blank.has(m.spec_dst().0 as int));
                    assert(p(m));
                }
            }
            if s2.contains(m) {
                assert(walk_ok(*pos, m));
                assert(!pos.board@[m.spec_dst().0 as int].is_of(us));
            }
            if p(m) {
                assert(pos.board@[m.spec_dst().0 as int] == Piece::NoPiece);
            }
        }
    }
    Ghost(g)
}

/// Whether an enemy knight on square `q` attacks the king of the side to
/// move.
pub open spec fn checking_knight(pos: Position, q: int) -> bool {
    let us = pos.side_to_move;
    0 <= q < 81 && pos.board@[q] == Piece::of(us.opp(), PieceKind::Knight) && jump_hits(
        Piece::of(us, PieceKind::Knight),
        pos.king(us),
        q,
    )
}

/// The squares to which a piece other than the king may go to answer a
/// check: the square of a knight that gives check, if there is one;
/// otherwise the squares that hold no piece of the side to move on the
/// files, ranks and diagonals through its king, up to the first occupied
/// square.
pub open spec fn evade_target(pos: Position, q: int) -> bool {
    let us = pos.side_to_move;
    if exists|t: int| checking_knight(pos, t) {
        checking_knight(pos, q)
    } else {
        0 <= q < 81 && !pos.board@[q].is_of(us) && (ranged_hits(
            Piece::HBishop,
            pos.king(us),
            pos.bb_occ,
            q,
        ) || ranged_hits(Piece::HRook, pos.king(us), pos.bb_occ, q))
    }
}

/// Whether `mv` moves the king of the side to move to a square that holds
/// no piece of that side and that the other side does not attack.
pub open spec fn king_evasion(pos: Position, mv: Move) -> bool {
    let us = pos.side_to_move;
    walk_ok(pos, mv) && mv.spec_src() == pos.king(us) && !pos.board@[mv.spec_dst().0 as int].is_of(
        us,
    ) && pos.effect(us.opp(), mv.spec_dst().0 as int) == 0
}

/// Whether `mv` moves a piece other than the king, or drops a piece, on one
/// of the squares that may answer a check.  With `naitou`, a drop must also
/// be next to the king.
pub open spec fn other_evasion(pos: Position, naitou: bool, mv: Move) -> bool {
    let us = pos.side_to_move;
    let dst = mv.spec_dst();
    (walk_ok(pos, mv) && pos.board@[mv.spec_src().0 as int].spec_kind() != PieceKind::King
        && evade_target(pos, dst.0 as int)) || (drop_ok(pos, mv) && evade_target(pos, dst.0 as int)
        && pos.board@[dst.0 as int] == Piece::NoPiece && (naitou ==> melee_hits(
        Piece::HKing,
        pos.king(us),
        dst.0 as int,
    )))
}

/// Whether `mv` is one of the moves that are tried as answers to a check.
/// Not all of them do answer it: a king's move may stay on the line of the
/// piece that gives check, and another piece's move may leave a second
/// check standing.
pub open spec fn evasion(pos: Position, naitou: bool, mv: Move) -> bool {
    king_evasion(pos, mv) || other_evasion(pos, naitou, mv)
}

/// The square of the mover's king after `mv`.
pub open spec fn king_after(pos: Position, mv: Move) -> int {
    let us = pos.side_to_move;
    if !mv.spec_is_drop() && pos.board@[mv.spec_src().0 as int] == Piece::of(us, PieceKind::King) {
        mv.spec_dst().0 as int
    } else {
        pos.king(us).0 as int
    }
}

/// Whether the mover's king is not attacked after `mv`.
pub open spec fn evades(pos: Position, mv: Move) -> bool {
    attack_count(
        Position::board_after(pos.board@, pos.side_to_move, mv),
        pos.side_to_move.opp(),
        king_after(pos, mv),
    ) == 0
}

/// Whether some move that is tried as an answer to a check can be played
/// and leaves the king of the side to move not attacked.
pub open spec fn can_evade(pos: Position, naitou: bool) -> bool {
    exists|m: Move| #[trigger] evasion(pos, naitou, m) && pos.playable(m) && evades(pos, m)
}

/// The squares of `bb` that `them` does not attack.
pub fn unattacked(pos: &Position, them: Side, bb: Bitboard) -> (r: Bitboard)
    requires
        bb.spec_is_valid(),
    ensures
        r.spec_is_valid(),
        forall|q: int| r.has(q) == (bb.has(q) && pos.effect(them, q) == 0),
{
    let sqs: Vec<Square> = bb.squares();
    let mut r: Bitboard = Bitboard::zero();
    let mut j: usize = 0;
    while j < sqs.len()
        invariant
            j <= sqs@.len(),
            r.spec_is_valid(),
            forall|i: int| 0 <= i < sqs@.len() ==> (#[trigger] sqs@[i]).on_board() && bb.has(sqs@[i].0 as int),
            forall|q: int| bb.has(q) ==> sqs@.contains(Square(q as i32)),
            forall|q: int|
                r.has(q) == (bb.has(q) && pos.effect(them, q) == 0 && exists|i: int|
                    0 <= i < j && sqs@[i].0 == q),
        decreases sqs@.len() - j,
    {
        let sq: Square = sqs[j];
        let ghost r0 = r;
        if pos.effect_count(them, sq) == 0 {
            r = r.or(Bitboard::from_square(sq));
        }
        proof {
            assert forall|q: int|
                r.has(q) == (bb.has(q) && pos.effect(them, q) == 0 && exists|i: int|
                    0 <= i < j + 1 && sqs@[i].0 == q) by {
                if r0.has(q) {
                    let i = choose|i: int| 0 <= i < j && sqs@[i].0 == q;
                    assert(0 <= i < j + 1 && sqs@[i].0 == q);
                }
                if q == sq.0 {
                    assert(sqs@[j as int].0 == q);
                }
                if exists|i: int| 0 <= i < j + 1 && sqs@[i].0 == q {
                    let i = choose|i: int| 0 <= i < j + 1 && sqs@[i].0 == q;
                    if i < j {
                        assert(0 <= i < j && sqs@[i].0 == q);
                    }
                }
            }
        }
        j += 1;
    }
    proof {
        assert forall|q: int| r.has(q) == (bb.has(q) && pos.effect(them, q) == 0) by {
            if bb.has(q) {
                assert(sqs@.contains(Square(q as i32)));
                let i = choose|i: int| 0 <= i < sqs@.len() && sqs@[i] == Square(q as i32);
                assert(sqs@[i].0 == q);
            }
        }
    }
    r
}

/// Adds the moves of the king of the side to move from `src` to the squares
/// of `bb_dst` that the other side does not attack.
pub fn generate_evasions_king<S: MoveSink>(pos: &Position, src: Square, bb_dst: Bitboard, mvs: &mut S) -> (g: Ghost<Seq<Move>>)
    requires
        src.on_board(),
        bb_dst.spec_is_valid(),
        !bb_dst.has(src.0 as int),
    ensures
        fills::<S>(old(mvs).held(), final(mvs).held(), g@, |m: Move|
                walk_among(PieceKind::King, pos.side_to_move, src, bb_dst, m) && pos.effect(
                    pos.side_to_move.opp(),
                    m.spec_dst().0 as int,
                ) == 0),
{
    let us: Side = pos.side_to_move();
    let them: Side = us.inv();
    let safe: Bitboard = unattacked(pos, them, bb_dst);
    emit_walks(us, PieceKind::King, src, safe, mvs)
}

/// Adds the moves of the pieces other than the king to the squares of
/// `bb_target`, and the drops on the squares of both `bb_target` and
/// `bb_drop_target`.
pub fn generate_evasions_nonking<S: MoveSink>(
    pos: &Position,
    bb_target: Bitboard,
    bb_drop_target: Bitboard,
    mvs: &mut S) -> (g: Ghost<Seq<Move>>)
    requires
        pos.bb_ok(),
        bb_target.spec_is_valid(),
        forall|q: int| bb_target.has(q) ==> !pos.board@[q].is_of(pos.side_to_move),
    ensures
        fills::<S>(old(mvs).held(), final(mvs).held(), g@, |m: Move|
                (walk_ok(*pos, m) && bb_target.has(m.spec_dst().0 as int)
                    && pos.board@[m.spec_src().0 as int].spec_kind() != PieceKind::King) || (drop_ok(
                    *pos,
                    m,
                ) && bb_target.has(m.spec_dst().0 as int) && bb_drop_target.has(
                    m.spec_dst().0 as int,
                ))),
{
    let ghost m0 = mvs.held();
    let ghost s0 = Seq::<Move>::empty();
    let ghost mut g: Seq<Move> = Seq::empty();
    let mut k: u32 = 1;
    while k <= 14
        invariant
            s0.len() == 0,
            reached::<S>(m0, mvs.held(), g),
            1 <= k <= 15,
            g.no_duplicates(),
            pos.bb_ok(),
            bb_target.spec_is_valid(),
            forall|q: int| bb_target.has(q) ==> !pos.board@[q].is_of(pos.side_to_move),
            forall|m: Move|
                #[trigger] g.contains(m) == (s0.contains(m) || (walk_ok(*pos, m) && bb_target.has(
                    m.spec_dst().0 as int,
                ) && pos.board@[m.spec_src().0 as int].spec_kind() != PieceKind::King
                    && pos.board@[m.spec_src().0 as int].spec_kind().value() < k)),
        decreases 15 - k,
    {
        if k != 8 {
            let pk: PieceKind = PieceKind::from_inner(k);
            let ghost s1 = g;
        let ghost m1 = mvs.held();
            let vb = generate_moves_walk(pos, bb_target, pk, mvs);
            proof {
                g = s1 + vb@;
                lemma_model_step(s1, vb@);
                lemma_fill_more::<S>(m0, m1, mvs.held(), s1, vb@);
            }
            proof {
                let p = |m: Move| walk_of_kind(*pos, bb_target, pk, m);
                assert forall|m: Move|
                    #[trigger] g.contains(m) == (s0.contains(m) || (walk_ok(*pos, m)
                        && bb_target.has(m.spec_dst().0 as int)
                        && pos.board@[m.spec_src().0 as int].spec_kind() != PieceKind::King
                        && pos.board@[m.spec_src().0 as int].spec_kind().value() < k + 1)) by {
                    assert(g.contains(m) == (s1.contains(m) || p(m)));
                    let kind = pos.board@[m.spec_src().0 as int].spec_kind();
                    assert(PieceKind::of_value(kind.value()) == kind);
                    assert(s1.contains(m) == (s0.contains(m) || (walk_ok(*pos, m) && bb_target.has(
                        m.spec_dst().0 as int,
                    ) && kind != PieceKind::King && kind.value() < k)));
                }
                {
                    assert forall|m: Move| #[trigger] s1.contains(m) implies !p(m) by {
                        assert(pk.value() == k);
                        assert(pk != PieceKind::King);
                    }
                    assert(g.no_duplicates());
                }
            }
        } else {
            proof {
                assert forall|m: Move|
                    #[trigger] g.contains(m) == (s0.contains(m) || (walk_ok(*pos, m)
                        && bb_target.has(m.spec_dst().0 as int)
                        && pos.board@[m.spec_src().0 as int].spec_kind() != PieceKind::King
                        && pos.board@[m.spec_src().0 as int].spec_kind().value() < k + 1)) by {
                    let kind = pos.board@[m.spec_src().0 as int].spec_kind();
                    assert(PieceKind::of_value(kind.value()) == kind);
                }
            }
        }
        k += 1;
    }
    let ghost s2 = g;
    let ghost m2 = mvs.held();
    let bb: Bitboard = bb_target.and(bb_drop_target);
    let vd = generate_moves_drop(pos, bb, mvs);
    proof {
        g = s2 + vd@;
        lemma_model_step(s2, vd@);
        lemma_fill_more::<S>(m0, m2, mvs.held(), s2, vd@);
    }
    proof {
        let p = |m: Move| drop_ok(*pos, m) && bb.has(m.spec_dst().0 as int);
        assert forall|m: Move|
            #[trigger] g.contains(m) == (s0.contains(m) || ((walk_ok(*pos, m) && bb_target.has(
                m.spec_dst().0 as int,
            ) && pos.board@[m.spec_src().0 as int].spec_kind() != PieceKind::King) || (drop_ok(
                *pos,
                m,
            ) && bb_target.has(m.spec_dst().0 as int) && bb_drop_target.has(
                m.spec_dst().0 as int,
            )))) by {
            assert(g.contains(m) == (s2.contains(m) || p(m)));
            assert(pos.board@[m.spec_src().0 as int].spec_kind().value() < 15);
        }
        {
            assert forall|m: Move| #[trigger] s2.contains(m) implies !p(m) by {}
            assert(g.no_duplicates());
        }
    }
    Ghost(g)
}

/// The squares that may answer a check by a piece other than the king.
pub fn evade_squares(pos: &Position) -> (r: Bitboard)
    requires
        pos.wf(),
    ensures
        r.spec_is_valid(),
        forall|q: int| r.has(q) == evade_target(*pos, q),
        forall|q: int| r.has(q) ==> !pos.board@[q].is_of(pos.side_to_move),
{
    let us: Side = pos.side_to_move();
    let them: Side = us.inv();
    let sq_king: Square = pos.king_square(us);
    let bb_knight: Bitboard = pos.bb_piece(them, PieceKind::Knight).and(knight_effect(us, sq_king));
    proof {
        assert forall|q: int| bb_knight.has(q) == checking_knight(*pos, q) by {}
    }
    if bb_knight.is_zero() {
        pos.bb_occupied_side(us).not().and(queen_effect(sq_king, pos.bb_occupied()))
    } else {
        proof {
            let t = choose|t: int| bb_knight.has(t);
            assert(checking_knight(*pos, t));
        }
        bb_knight
    }
}

/// Adds the moves that are tried as answers to a check, each once, in no
/// particular order.
pub fn fill_evasions<S: MoveSink>(pos: &Position, naitou: bool, mvs: &mut S) -> (g: Ghost<Seq<Move>>)
    requires
        pos.wf(),
    ensures
        fills::<S>(old(mvs).held(), final(mvs).held(), g@, |m: Move| evasion(*pos, naitou, m)),
{
    let us: Side = pos.side_to_move();
    let sq_king: Square = pos.king_square(us);
    let ghost m0 = mvs.held();
    let bb_dst_king: Bitboard = pos.bb_occupied_side(us).not().and(king_effect(sq_king));
    let kings = generate_evasions_king(pos, sq_king, bb_dst_king, mvs);
    let ghost s1 = kings@;
    let ghost m1 = mvs.held();
    let ghost mut g: Seq<Move> = kings@;
    proof {
        assert forall|m: Move| #[trigger] s1.contains(m) == king_evasion(*pos, m) by {
            let p = |m: Move|
                walk_among(PieceKind::King, pos.side_to_move, sq_king, bb_dst_king, m)
                    && pos.effect(pos.side_to_move.opp(), m.spec_dst().0 as int) == 0;
            assert(s1.contains(m) == p(m));
            let kp = pos.board@[sq_king.0 as int];
            assert(kp == Piece::of(us, PieceKind::King));
            if m.spec_src() == sq_king {
                let q = m.spec_dst().0 as int;
                assert(melee_hits(kp, sq_king, q) == melee_hits(Piece::HKing, sq_king, q)) by {
                    if melee_hits(kp, sq_king, q) {
                        let d = choose|d: crate::direction::Direction|
                            kp.steps(d) && #[trigger] crate::bbs::offset_hits(
                                sq_king,
                                d.dc(),
                                d.dr(),
                                q,
                            );
                        assert(Piece::HKing.steps(d));
                    }
                    if melee_hits(Piece::HKing, sq_king, q) {
                        let d = choose|d: crate::direction::Direction|
                            Piece::HKing.steps(d) && #[trigger] crate::bbs::offset_hits(
                                sq_king,
                                d.dc(),
                                d.dr(),
                                q,
                            );
                        assert(kp.steps(d));
                    }
                }
                assert(!ranged_hits(kp, sq_king, pos.bb_occ, q));
                assert(!jump_hits(kp, sq_king, q));
            }
        }
    }
    let bb_target: Bitboard = evade_squares(pos);
    let bb_drop_target: Bitboard = if naitou {
        pos.bb_blank().and(king_effect(sq_king))
    } else {
        pos.bb_blank()
    };
    let vb = generate_evasions_nonking(pos, bb_target, bb_drop_target, mvs);
    proof {
        g = s1 + vb@;
        lemma_model_step(s1, vb@);
        lemma_fill_more::<S>(m0, m1, mvs.held(), s1, vb@);
    }
    proof {
        assert forall|m: Move| g.contains(m) == evasion(*pos, naitou, m) by {
            let p = |m: Move|
                (walk_ok(*pos, m) && bb_target.has(m.spec_dst().0 as int)
                    && pos.board@[m.spec_src().0 as int].spec_kind() != PieceKind::King) || (drop_ok(
                    *pos,
                    m,
                ) && bb_target.has(m.spec_dst().0 as int) && bb_drop_target.has(
                    m.spec_dst().0 as int,
                ));
            assert(g.contains(m) == (s1.contains(m) || p(m)));
            assert(s1.contains(m) == king_evasion(*pos, m));
        }
        assert forall|m: Move| #[trigger] s1.contains(m) implies !((walk_ok(*pos, m)
            && bb_target.has(m.spec_dst().0 as int) && pos.board@[m.spec_src().0 as int].spec_kind()
            != PieceKind::King) || (drop_ok(*pos, m) && bb_target.has(m.spec_dst().0 as int)
            && bb_drop_target.has(m.spec_dst().0 as int))) by {
            assert(king_evasion(*pos, m));
            assert(pos.board@[sq_king.0 as int] == Piece::of(us, PieceKind::King));
        }
        assert(g.no_duplicates());
    }
    Ghost(g)
}

/// The moves that are tried as answers to a check, each once, in no
/// particular order, as far as 600 moves go.  Drops may go to every empty
/// square that may answer the check.
pub fn generate_evasions(pos: &Position) -> (r: MoveArray)
    requires
        pos.wf(),
    ensures
        forall|m: Move| r@.contains(m) ==> evasion(*pos, false, m),
        r@.len() < 600 ==> forall|m: Move| evasion(*pos, false, m) ==> r@.contains(m),
        first_of_all(r@, |m: Move| evasion(*pos, false, m)),
        r@.no_duplicates(),
{
    generate_evasions_impl(pos, false)
}

/// The moves that the console tries as answers to a check, in no
/// particular order, as far as 600 moves go: as `generate_evasions`, but a
/// drop must land next to the king.
pub fn generate_evasions_naitou(pos: &Position) -> (r: MoveArray)
    requires
        pos.wf(),
    ensures
        forall|m: Move| r@.contains(m) ==> evasion(*pos, true, m),
        r@.len() < 600 ==> forall|m: Move| evasion(*pos, true, m) ==> r@.contains(m),
        first_of_all(r@, |m: Move| evasion(*pos, true, m)),
        r@.no_duplicates(),
{
    generate_evasions_impl(pos, true)
}

/// The moves that are tried as answers to a check; with `naitou`, drops
/// must land next to the king.
pub fn generate_evasions_impl(pos: &Position, naitou: bool) -> (r: MoveArray)
    requires
        pos.wf(),
    ensures
        forall|m: Move| r@.contains(m) ==> evasion(*pos, naitou, m),
        r@.len() < 600 ==> forall|m: Move| evasion(*pos, naitou, m) ==> r@.contains(m),
        first_of_all(r@, |m: Move| evasion(*pos, naitou, m)),
        r@.no_duplicates(),
{
    let mut r: MoveArray = MoveArray::new();
    let g = fill_evasions(pos, naitou, &mut r);
    proof {
        lemma_first_of_all(r@, g@);
    }
    r
}

/// Plays `mv`, looks whether the mover's king is attacked, and takes the
/// move back.  A move that cannot be played counts as no answer.
pub fn try_evade_helper(pos: &mut Position, mv: Move) -> (r: bool)
    requires
        old(pos).wf(),
    ensures
        *final(pos) == *old(pos),
        r == (old(pos).playable(mv) && evades(*old(pos), mv)),
{
    if !pos.is_playable(mv) {
        return false;
    }
    let us: Side = pos.side_to_move();
    let ghost p0 = *pos;
    let umv = pos.do_move(mv);
    let ghost p1 = *pos;
    let res: bool = !pos.is_checked(us);
    pos.undo_move(umv);
    proof {
        lemma_undo_restores(p0, mv, p1, umv, *pos);
        assert(p1.king(us).0 == king_after(p0, mv));
        crate::attack::lemma_attack_count_bound(p1.board@, us.opp(), king_after(p0, mv));
    }
    res
}

/// Whether one of `mvs` can be played and leaves the mover's king not
/// attacked.
pub fn try_evade_any(pos: &mut Position, mvs: &Vec<Move>) -> (r: bool)
    requires
        old(pos).wf(),
    ensures
        *final(pos) == *old(pos),
        r == (exists|m: Move| #[trigger]
            mvs@.contains(m) && old(pos).playable(m) && evades(*old(pos), m)),
{
    let mut i: usize = 0;
    while i < mvs.len()
        invariant
            i <= mvs@.len(),
            *pos == *old(pos),
            pos.wf(),
            forall|k: int| 0 <= k < i ==> !(pos.playable(#[trigger] mvs@[k]) && evades(*pos, mvs@[k])),
        decreases mvs@.len() - i,
    {
        if try_evade_helper(pos, mvs[i]) {
            assert(mvs@.contains(mvs@[i as int]));
            return true;
        }
        i += 1;
    }
    proof {
        if exists|m: Move| #[trigger] mvs@.contains(m) && pos.playable(m) && evades(*pos, m) {
            let m = choose|m: Move| #[trigger] mvs@.contains(m) && pos.playable(m) && evades(*pos, m);
            let k = choose|k: int| 0 <= k < mvs@.len() && mvs@[k] == m;
            assert(!(pos.playable(mvs@[k]) && evades(*pos, mvs@[k])));
        }
    }
    false
}

/// Whether the king of the side to move can step out of check.
pub fn evade_by_king(pos: &mut Position) -> (r: bool)
    requires
        old(pos).wf(),
    ensures
        *final(pos) == *old(pos),
        r == (exists|m: Move| #[trigger]
            king_evasion(*old(pos), m) && old(pos).playable(m) && evades(*old(pos), m)),
{
    let us: Side = pos.side_to_move();
    let sq_king: Square = pos.king_square(us);
    let bb_dst: Bitboard = pos.bb_occupied_side(us).not().and(king_effect(sq_king));
    let mut list: MoveArray = MoveArray::new();
    let g = generate_evasions_king(pos, sq_king, bb_dst, &mut list);
    proof {
        lemma_first_of_all(list@, g@);
    }
    let mvs: Vec<Move> = if list.len() < 600 {
        list.to_vec()
    } else {
        let mut v: Vec<Move> = Vec::new();
        let h = generate_evasions_king(pos, sq_king, bb_dst, &mut v);
        proof {
            assert(Seq::<Move>::empty() + h@ =~= h@);
        }
        v
    };
    proof {
        lemma_king_moves(*pos, bb_dst, mvs@);
    }
    let r: bool = try_evade_any(pos, &mvs);
    proof {
        if r {
            let m = choose|m: Move| #[trigger] mvs@.contains(m) && pos.playable(m) && evades(*pos, m);
            assert(king_evasion(*pos, m));
        } else {
            assert forall|m: Move| #[trigger]
                king_evasion(*pos, m) implies !(pos.playable(m) && evades(*pos, m)) by {
                assert(mvs@.contains(m));
            }
        }
    }
    r
}

/// The king's moves that `generate_evasions_king` adds are the king's moves
/// that are tried as answers to a check.
pub proof fn lemma_king_moves(pos: Position, bb_dst: Bitboard, s: Seq<Move>)
    requires
        pos.wf(),
        forall|q: int|
            bb_dst.has(q) == (0 <= q < 81 && !pos.board@[q].is_of(pos.side_to_move) && melee_hits(
                Piece::HKing,
                pos.king(pos.side_to_move),
                q,
            )),
        added(
            Seq::<Move>::empty(),
            s,
            |m: Move|
                walk_among(PieceKind::King, pos.side_to_move, pos.king(pos.side_to_move), bb_dst, m)
                    && pos.effect(pos.side_to_move.opp(), m.spec_dst().0 as int) == 0,
        ),
    ensures
        forall|m: Move| #[trigger] s.contains(m) == king_evasion(pos, m),
{
    let us = pos.side_to_move;
    let sq_king = pos.king(us);
    assert forall|m: Move| #[trigger] s.contains(m) == king_evasion(pos, m) by {
        let p = |m: Move|
            walk_among(PieceKind::King, pos.side_to_move, pos.king(pos.side_to_move), bb_dst, m)
                && pos.effect(pos.side_to_move.opp(), m.spec_dst().0 as int) == 0;
        assert(s.contains(m) == (Seq::<Move>::empty().contains(m) || p(m)));
        let kp = pos.board@[sq_king.0 as int];
        assert(kp == Piece::of(us, PieceKind::King));
        if m.spec_src() == sq_king {
            let q = m.spec_dst().0 as int;
            assert(melee_hits(kp, sq_king, q) == melee_hits(Piece::HKing, sq_king, q)) by {
                if melee_hits(kp, sq_king, q) {
                    let d = choose|d: crate::direction::Direction|
                        kp.steps(d) && #[trigger] crate::bbs::offset_hits(sq_king, d.dc(), d.dr(), q);
                    assert(Piece::HKing.steps(d));
                }
                if melee_hits(Piece::HKing, sq_king, q) {
                    let d = choose|d: crate::direction::Direction|
                        Piece::HKing.steps(d) && #[trigger] crate::bbs::offset_hits(
                            sq_king,
                            d.dc(),
                            d.dr(),
                            q,
                        );
                    assert(kp.steps(d));
                }
            }
            assert(!ranged_hits(kp, sq_king, pos.bb_occ, q));
            assert(!jump_hits(kp, sq_king, q));
        }
    }
}

/// Whether a piece other than the king can answer the check by a move or a
/// drop; with `naitou`, drops must land next to the king.
pub fn evade_by_nonking(pos: &mut Position, naitou: bool) -> (r: bool)
    requires
        old(pos).wf(),
    ensures
        *final(pos) == *old(pos),
        r == (exists|m: Move| #[trigger]
            other_evasion(*old(pos), naitou, m) && old(pos).playable(m) && evades(*old(pos), m)),
{
    let us: Side = pos.side_to_move();
    let sq_king: Square = pos.king_square(us);
    let bb_target: Bitboard = evade_squares(pos);
    let bb_drop_target: Bitboard = if naitou {
        pos.bb_blank().and(king_effect(sq_king))
    } else {
        pos.bb_blank()
    };
    let mut list: MoveArray = MoveArray::new();
    let g = generate_evasions_nonking(pos, bb_target, bb_drop_target, &mut list);
    proof {
        lemma_first_of_all(list@, g@);
    }
    let mvs: Vec<Move> = if list.len() < 600 {
        list.to_vec()
    } else {
        let mut v: Vec<Move> = Vec::new();
        let h = generate_evasions_nonking(pos, bb_target, bb_drop_target, &mut v);
        proof {
            assert(Seq::<Move>::empty() + h@ =~= h@);
        }
        v
    };
    proof {
        assert forall|m: Move| #[trigger] mvs@.contains(m) == other_evasion(*pos, naitou, m) by {
            let p = |m: Move|
                (walk_ok(*pos, m) && bb_target.has(m.spec_dst().0 as int)
                    && pos.board@[m.spec_src().0 as int].spec_kind() != PieceKind::King) || (drop_ok(
                    *pos,
                    m,
                ) && bb_target.has(m.spec_dst().0 as int) && bb_drop_target.has(
                    m.spec_dst().0 as int,
                ));
            assert(mvs@.contains(m) == (Seq::<Move>::empty().contains(m) || p(m)));
        }
    }
    let r: bool = try_evade_any(pos, &mvs);
    proof {
        if r {
            let m = choose|m: Move| #[trigger] mvs@.contains(m) && pos.playable(m) && evades(*pos, m);
            assert(other_evasion(*pos, naitou, m));
        } else {
            assert forall|m: Move| #[trigger]
                other_evasion(*pos, naitou, m) implies !(pos.playable(m) && evades(*pos, m)) by {
                assert(mvs@.contains(m));
            }
        }
    }
    r
}

/// Whether the side to move is checkmated: none of the moves that are
/// tried as answers to a check leaves its king not attacked.  With
/// `naitou`, drops that do not land next to the king are not tried.
pub fn position_is_checkmated_impl(pos: &mut Position, naitou: bool) -> (r: bool)
    requires
        old(pos).wf(),
    ensures
        *final(pos) == *old(pos),
        r == !can_evade(*old(pos), naitou),
{
    let can: bool = evade_by_king(pos) || evade_by_nonking(pos, naitou);
    proof {
        if can {
            if exists|m: Move| #[trigger]
                king_evasion(*pos, m) && pos.playable(m) && evades(*pos, m) {
                let m = choose|m: Move| #[trigger]
                    king_evasion(*pos, m) && pos.playable(m) && evades(*pos, m);
                assert(evasion(*pos, naitou, m));
            } else {
                let m = choose|m: Move| #[trigger]
                    other_evasion(*pos, naitou, m) && pos.playable(m) && evades(*pos, m);
                assert(evasion(*pos, naitou, m));
            }
        } else {
            assert forall|m: Move| #[trigger]
                evasion(*pos, naitou, m) implies !(pos.playable(m) && evades(*pos, m)) by {
                if king_evasion(*pos, m) {
                } else {
                    assert(other_evasion(*pos, naitou, m));
                }
            }
        }
    }
    !can
}

/// Whether the side to move, whose king is attacked, is checkmated; a mate
/// by a dropped pawn counts as mate.  The position is left as it was.
pub fn position_is_checkmated(pos: &mut Position) -> (r: bool)
    requires
        old(pos).wf(),
    ensures
        *final(pos) == *old(pos),
        r == !can_evade(*old(pos), false),
{
    position_is_checkmated_impl(pos, false)
}

/// Whether the side to move, whose king is attacked, is checkmated as the
/// console sees it: drops are tried only next to the king.  The position is
/// left as it was.
pub fn position_is_checkmated_naitou(pos: &mut Position) -> (r: bool)
    requires
        old(pos).wf(),
    ensures
        *final(pos) == *old(pos),
        r == !can_evade(*old(pos), true),
{
    position_is_checkmated_impl(pos, true)
}

} // verus!
