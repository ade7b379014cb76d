//! Laws that tie the parts of the library together: what the attack
//! counts mean in terms of the pieces that attack, and what every generated
//! move has in common.

use vstd::prelude::*;
use crate::shogi::{Side, Square};
use crate::direction::Direction;
use crate::piece::{Piece, PieceKind};
use crate::moves::Move;
use crate::bitboard::Bitboard;
use crate::bbs::{
    attacks, inb, jump_hits, melee_hits, offset_hits, ranged_hits, ray_reach, slide_hits,
};
use crate::attack::{
    attack_count,
    dir_count,
    dir_sum,
    jump_onto,
    look,
    ray_onto,
    shadow_onto,
    step_onto,
};
use crate::position::Position;
use crate::movegen::general::{dead_end, plain_walk, promo_rule, pseudo_legal, walk_ok};
use crate::movegen::com::{
    com_drops, com_moves, com_moves_upto, com_ray_moves, com_rays_upto, com_square_moves,
    com_step_moves, com_steps_upto, com_walk, com_walks, drop_if, melee_deltas, ranged_deltas,
};
use crate::board::Hand;
use crate::naitou::scan_square;

verus! {

/// Whether the `k - 1` squares after file `c`, rank `r` in direction `d`
/// are on the board and empty.
pub open spec fn clear_run(b: Seq<Piece>, c: int, r: int, d: Direction, k: int) -> bool {
    forall|j: int|
        1 <= j < k ==> inb(c + j * d.dc(), r + j * d.dr()) && #[trigger] b[9 * (c + j * d.dc()) + (r
            + j * d.dr())] == Piece::NoPiece
}

/// Whether the square `k` steps after file `c`, rank `r` in direction `d`
/// is on the board, holds a piece, and is the first to do so.
pub open spec fn first_piece_at(b: Seq<Piece>, c: int, r: int, d: Direction, k: int) -> bool {
    &&& k >= 1
    &&& inb(c + k * d.dc(), r + k * d.dr())
    &&& b[9 * (c + k * d.dc()) + (r + k * d.dr())] != Piece::NoPiece
    &&& clear_run(b, c, r, d, k)
}

/// What `look` finds, in terms of the number of steps.
pub proof fn lemma_look(b: Seq<Piece>, c: int, r: int, d: Direction, n: nat)
    requires
        inb(c, r),
    ensures
        look(b, c, r, d, n) >= 0 ==> exists|k: int|
            1 <= k <= n && #[trigger] first_piece_at(b, c, r, d, k) && look(b, c, r, d, n) == 9 * (c
                + k * d.dc()) + (r + k * d.dr()),
        look(b, c, r, d, n) < 0 ==> look(b, c, r, d, n) == -1 && forall|k: int|
            1 <= k <= n ==> !#[trigger] first_piece_at(b, c, r, d, k),
    decreases n,
{
    if n > 0 {
        let c1 = c + d.dc();
        let r1 = r + d.dr();
        if !inb(c1, r1) {
            assert forall|k: int| 1 <= k <= n implies !#[trigger] first_piece_at(b, c, r, d, k) by {
                if first_piece_at(b, c, r, d, k) {
                    if k > 1 {
                        assert(inb(c + 1 * d.dc(), r + 1 * d.dr()));
                    }
                }
            }
        } else if b[9 * c1 + r1] != Piece::NoPiece {
            assert(first_piece_at(b, c, r, d, 1));
        } else {
            lemma_look(b, c1, r1, d, (n - 1) as nat);
            let t = look(b, c1, r1, d, (n - 1) as nat);
            if t >= 0 {
                let k = choose|k: int|
                    1 <= k <= n - 1 && #[trigger] first_piece_at(b, c1, r1, d, k) && t == 9 * (c1 + k
                        * d.dc()) + (r1 + k * d.dr());
                assert(first_piece_at(b, c, r, d, k + 1)) by {
                    lemma_shift(c, r, d, k);
                    assert forall|j: int| 1 <= j < k + 1 implies inb(c + j * d.dc(), r + j * d.dr())
                        && #[trigger] b[9 * (c + j * d.dc()) + (r + j * d.dr())] == Piece::NoPiece by {
                        if j > 1 {
                            lemma_shift(c, r, d, j - 1);
                            assert(b[9 * (c1 + (j - 1) * d.dc()) + (r1 + (j - 1) * d.dr())]
                                == Piece::NoPiece);
                        }
                    }
                }
                lemma_shift(c, r, d, k);
            } else {
                assert forall|k: int| 1 <= k <= n implies !#[trigger] first_piece_at(b, c, r, d, k) by {
                    if first_piece_at(b, c, r, d, k) {
                        if k == 1 {
                        } else {
                            lemma_shift(c, r, d, k - 1);
                            assert(first_piece_at(b, c1, r1, d, k - 1)) by {
                                assert forall|j: int| 1 <= j < k - 1 implies inb(
                                    c1 + j * d.dc(),
                                    r1 + j * d.dr(),
                                ) && #[trigger] b[9 * (c1 + j * d.dc()) + (r1 + j * d.dr())]
                                    == Piece::NoPiece by {
                                    lemma_shift(c, r, d, j);
                                    assert(b[9 * (c + (j + 1) * d.dc()) + (r + (j + 1) * d.dr())]
                                        == Piece::NoPiece);
                                }
                            }
                        }
                    }
                }
            }
        }
    } else {
    }
}

/// One step and `k` more steps are `k + 1` steps.
pub proof fn lemma_shift(c: int, r: int, d: Direction, k: int)
    ensures
        (c + d.dc()) + k * d.dc() == c + (k + 1) * d.dc(),
        (r + d.dr()) + k * d.dr() == r + (k + 1) * d.dr(),
{
    assert((c + d.dc()) + k * d.dc() == c + (k + 1) * d.dc()) by (nonlinear_arith);
    assert((r + d.dr()) + k * d.dr() == r + (k + 1) * d.dr()) by (nonlinear_arith);
}

/// What `ray_reach` reaches, in terms of the number of steps.
pub proof fn lemma_ray_reach(b: Seq<Piece>, occ: Bitboard, c: int, r: int, d: Direction, q: int, n: nat)
    requires
        inb(c, r),
        forall|x: int| occ.has(x) == (0 <= x < 81 && b[x] != Piece::NoPiece),
    ensures
        ray_reach(occ, c, r, d, q, n) == (exists|k: int|
            1 <= k <= n && inb(c + k * d.dc(), r + k * d.dr()) && q == 9 * (c + k * d.dc()) + (r + k
                * d.dr()) && #[trigger] clear_run(b, c, r, d, k)),
    decreases n,
{
    let goal = exists|k: int|
        1 <= k <= n && inb(c + k * d.dc(), r + k * d.dr()) && q == 9 * (c + k * d.dc()) + (r + k
            * d.dr()) && #[trigger] clear_run(b, c, r, d, k);
    if n > 0 {
        let c1 = c + d.dc();
        let r1 = r + d.dr();
        if inb(c1, r1) {
            lemma_ray_reach(b, occ, c1, r1, d, q, (n - 1) as nat);
            let inner = exists|k: int|
                1 <= k <= n - 1 && inb(c1 + k * d.dc(), r1 + k * d.dr()) && q == 9 * (c1 + k * d.dc())
                    + (r1 + k * d.dr()) && #[trigger] clear_run(b, c1, r1, d, k);
            if q == 9 * c1 + r1 {
                assert(clear_run(b, c, r, d, 1));
                assert(1 <= 1 <= n && inb(c + 1 * d.dc(), r + 1 * d.dr()) && q == 9 * (c + 1 * d.dc())
                    + (r + 1 * d.dr()) && clear_run(b, c, r, d, 1));
            } else if !occ.has(9 * c1 + r1) && inner {
                let k = choose|k: int|
                    1 <= k <= n - 1 && inb(c1 + k * d.dc(), r1 + k * d.dr()) && q == 9 * (c1 + k
                        * d.dc()) + (r1 + k * d.dr()) && #[trigger] clear_run(b, c1, r1, d, k);
                lemma_shift(c, r, d, k);
                assert(clear_run(b, c, r, d, k + 1)) by {
                    assert forall|j: int| 1 <= j < k + 1 implies inb(c + j * d.dc(), r + j * d.dr())
                        && #[trigger] b[9 * (c + j * d.dc()) + (r + j * d.dr())] == Piece::NoPiece by {
                        if j > 1 {
                            lemma_shift(c, r, d, j - 1);
                            assert(b[9 * (c1 + (j - 1) * d.dc()) + (r1 + (j - 1) * d.dr())]
                                == Piece::NoPiece);
                        }
                    }
                }
                assert(1 <= k + 1 <= n && inb(c + (k + 1) * d.dc(), r + (k + 1) * d.dr()) && q == 9
                    * (c + (k + 1) * d.dc()) + (r + (k + 1) * d.dr()) && clear_run(b, c, r, d, k + 1));
            }
            if goal {
                let k = choose|k: int|
                    1 <= k <= n && inb(c + k * d.dc(), r + k * d.dr()) && q == 9 * (c + k * d.dc())
                        + (r + k * d.dr()) && #[trigger] clear_run(b, c, r, d, k);
                if k > 1 {
                    lemma_shift(c, r, d, k - 1);
                    assert(b[9 * (c + 1 * d.dc()) + (r + 1 * d.dr())] == Piece::NoPiece);
                    assert(clear_run(b, c1, r1, d, k - 1)) by {
                        assert forall|j: int| 1 <= j < k - 1 implies inb(c1 + j * d.dc(), r1 + j * d.dr())
                            && #[trigger] b[9 * (c1 + j * d.dc()) + (r1 + j * d.dr())]
                            == Piece::NoPiece by {
                            lemma_shift(c, r, d, j);
                            assert(b[9 * (c + (j + 1) * d.dc()) + (r + (j + 1) * d.dr())]
                                == Piece::NoPiece);
                        }
                    }
                    assert(1 <= k - 1 <= n - 1 && inb(c1 + (k - 1) * d.dc(), r1 + (k - 1) * d.dr())
                        && q == 9 * (c1 + (k - 1) * d.dc()) + (r1 + (k - 1) * d.dr()) && clear_run(
                        b,
                        c1,
                        r1,
                        d,
                        k - 1,
                    ));
                    assert(q != 9 * c1 + r1) by {
                        lemma_far(c1, r1, d, k - 1);
                    }
                }
            }
        } else {
            if goal {
                let k = choose|k: int|
                    1 <= k <= n && inb(c + k * d.dc(), r + k * d.dr()) && q == 9 * (c + k * d.dc())
                        + (r + k * d.dr()) && #[trigger] clear_run(b, c, r, d, k);
                if k > 1 {
                    assert(inb(c + 1 * d.dc(), r + 1 * d.dr()));
                }
            }
        }
    }
}

/// A square one or more steps away is another square.
pub proof fn lemma_far(c: int, r: int, d: Direction, k: int)
    requires
        k >= 1,
        inb(c, r),
        inb(c + k * d.dc(), r + k * d.dr()),
    ensures
        9 * (c + k * d.dc()) + (r + k * d.dr()) != 9 * c + r,
{
    assert(k * d.dc() != 0 || k * d.dr() != 0) by (nonlinear_arith)
        requires
            k >= 1,
            d.dc() != 0 || d.dr() != 0,
    ;
}

/// A run of empty squares seen from its other end.
pub proof fn lemma_clear_run_back(b: Seq<Piece>, c: int, r: int, d: Direction, k: int)
    requires
        k >= 1,
        clear_run(b, c, r, d, k),
    ensures
        clear_run(b, c + k * d.dc(), r + k * d.dr(), d.opp(), k),
{
    let c2 = c + k * d.dc();
    let r2 = r + k * d.dr();
    let e = d.opp();
    assert(e.dc() == -d.dc() && e.dr() == -d.dr());
    assert forall|j: int| 1 <= j < k implies inb(c2 + j * e.dc(), r2 + j * e.dr()) && #[trigger] b[9
        * (c2 + j * e.dc()) + (r2 + j * e.dr())] == Piece::NoPiece by {
        let i = k - j;
        assert(c2 + j * e.dc() == c + i * d.dc() && r2 + j * e.dr() == r + i * d.dr())
            by (nonlinear_arith)
            requires
                c2 == c + k * d.dc(),
                r2 == r + k * d.dr(),
                e.dc() == -d.dc(),
                e.dr() == -d.dr(),
                i == k - j,
        ;
        assert(b[9 * (c + i * d.dc()) + (r + i * d.dr())] == Piece::NoPiece);
    }
}

/// The first piece in a direction is found after one number of steps only.
pub proof fn lemma_first_piece_unique(b: Seq<Piece>, c: int, r: int, d: Direction, k: int, k2: int)
    requires
        first_piece_at(b, c, r, d, k),
        first_piece_at(b, c, r, d, k2),
    ensures
        k == k2,
{
    if k2 < k {
        assert(b[9 * (c + k2 * d.dc()) + (r + k2 * d.dr())] == Piece::NoPiece);
    }
    if k < k2 {
        assert(b[9 * (c + k * d.dc()) + (r + k * d.dr())] == Piece::NoPiece);
    }
}

/// Going `k` steps and coming `k` steps back leads to where one started.
pub proof fn lemma_there_and_back(c: int, r: int, d: Direction, k: int)
    ensures
        (c + k * d.dc()) + k * d.opp().dc() == c,
        (r + k * d.dr()) + k * d.opp().dr() == r,
        d.opp().opp() == d,
{
    let e = d.opp();
    assert(e.dc() == -d.dc() && e.dr() == -d.dr());
    assert((c + k * d.dc()) + k * e.dc() == c) by (nonlinear_arith)
        requires
            e.dc() == -d.dc(),
    ;
    assert((r + k * d.dr()) + k * e.dr() == r) by (nonlinear_arith)
        requires
            e.dr() == -d.dr(),
    ;
}

/// The piece that `look` finds from square `q` against direction `d`
/// attacks `q` along its ray in direction `d`, if it slides that way.
pub proof fn lemma_found_slides(b: Seq<Piece>, occ: Bitboard, q: int, d: Direction)
    requires
        b.len() == 81,
        0 <= q < 81,
        forall|x: int| occ.has(x) == (0 <= x < 81 && b[x] != Piece::NoPiece),
        look(b, q / 9, q % 9, d.opp(), 8) >= 0,
    ensures
        0 <= look(b, q / 9, q % 9, d.opp(), 8) < 81,
        b[look(b, q / 9, q % 9, d.opp(), 8)] != Piece::NoPiece,
        slide_hits(occ, Square(look(b, q / 9, q % 9, d.opp(), 8) as i32), d, q),
{
    let e = d.opp();
    let c = q / 9;
    let r = q % 9;
    lemma_look(b, c, r, e, 8);
    let found = look(b, c, r, e, 8);
    let k = choose|k: int|
        1 <= k <= 8 && #[trigger] first_piece_at(b, c, r, e, k) && found == 9 * (c + k * e.dc()) + (r
            + k * e.dr());
    let tc = c + k * e.dc();
    let tr = r + k * e.dr();
    lemma_clear_run_back(b, c, r, e, k);
    lemma_there_and_back(c, r, e, k);
    lemma_ray_reach(b, occ, tc, tr, d, q, 8);
    assert(1 <= k <= 8 && inb(tc + k * d.dc(), tr + k * d.dr()) && q == 9 * (tc + k * d.dc()) + (tr
        + k * d.dr()) && clear_run(b, tc, tr, d, k));
    assert(found / 9 == tc && found % 9 == tr);
}

/// A piece on square `t` whose ray in direction `d` reaches square `q` is
/// the piece that `look` finds from `q` against direction `d`.
pub proof fn lemma_slides_found(b: Seq<Piece>, occ: Bitboard, t: int, q: int, d: Direction)
    requires
        b.len() == 81,
        0 <= q < 81,
        0 <= t < 81,
        b[t] != Piece::NoPiece,
        forall|x: int| occ.has(x) == (0 <= x < 81 && b[x] != Piece::NoPiece),
        slide_hits(occ, Square(t as i32), d, q),
    ensures
        look(b, q / 9, q % 9, d.opp(), 8) == t,
{
    let e = d.opp();
    let c = q / 9;
    let r = q % 9;
    let tc = t / 9;
    let tr = t % 9;
    lemma_ray_reach(b, occ, tc, tr, d, q, 8);
    let k = choose|k: int|
        1 <= k <= 8 && inb(tc + k * d.dc(), tr + k * d.dr()) && q == 9 * (tc + k * d.dc()) + (tr + k
            * d.dr()) && #[trigger] clear_run(b, tc, tr, d, k);
    assert(tc + k * d.dc() == c && tr + k * d.dr() == r);
    lemma_clear_run_back(b, tc, tr, d, k);
    lemma_there_and_back(tc, tr, d, k);
    assert(first_piece_at(b, c, r, e, k));
    lemma_look(b, c, r, e, 8);
    let found = look(b, c, r, e, 8);
    assert(found >= 0);
    let k2 = choose|k2: int|
        1 <= k2 <= 8 && #[trigger] first_piece_at(b, c, r, e, k2) && found == 9 * (c + k2 * e.dc())
            + (r + k2 * e.dr());
    lemma_first_piece_unique(b, c, r, e, k, k2);
}

/// A ray of `s` in direction `d` reaches square `q` exactly when a piece
/// of `s` that slides in direction `d` attacks `q` along that ray.
pub proof fn lemma_ray_onto(b: Seq<Piece>, occ: Bitboard, s: Side, q: int, d: Direction)
    requires
        b.len() == 81,
        0 <= q < 81,
        forall|x: int| occ.has(x) == (0 <= x < 81 && b[x] != Piece::NoPiece),
    ensures
        ray_onto(b, s, q, d) == (exists|t: int|
            0 <= t < 81 && b[t].is_of(s) && b[t].slides(d) && #[trigger] slide_hits(
                occ,
                Square(t as i32),
                d,
                q,
            )),
{
    let found = look(b, q / 9, q % 9, d.opp(), 8);
    if ray_onto(b, s, q, d) {
        lemma_found_slides(b, occ, q, d);
        assert(0 <= found < 81 && b[found].is_of(s) && b[found].slides(d) && slide_hits(
            occ,
            Square(found as i32),
            d,
            q,
        ));
    }
    if exists|t: int|
        0 <= t < 81 && b[t].is_of(s) && b[t].slides(d) && #[trigger] slide_hits(
            occ,
            Square(t as i32),
            d,
            q,
        ) {
        let t = choose|t: int|
            0 <= t < 81 && b[t].is_of(s) && b[t].slides(d) && #[trigger] slide_hits(
                occ,
                Square(t as i32),
                d,
                q,
            );
        lemma_slides_found(b, occ, t, q, d);
    }
}

/// The sum over the directions is at least what one direction adds, and
/// when it is positive some direction adds something.
pub proof fn lemma_dir_sum(b: Seq<Piece>, s: Side, q: int, n: int)
    requires
        0 <= n <= 8,
    ensures
        dir_sum(b, s, q, n) >= 0,
        forall|d: Direction| d.index() < n ==> dir_sum(b, s, q, n) >= #[trigger] dir_count(b, s, q, d),
        dir_sum(b, s, q, n) > 0 ==> exists|d: Direction|
            d.index() < n && #[trigger] dir_count(b, s, q, d) > 0,
    decreases n,
{
    if n > 0 {
        lemma_dir_sum(b, s, q, n - 1);
        let e = Direction::of_index(n - 1);
        assert(e.index() == n - 1);
        assert(dir_count(b, s, q, e) >= 0);
        assert forall|d: Direction| d.index() < n implies dir_sum(b, s, q, n) >= #[trigger] dir_count(
            b,
            s,
            q,
            d,
        ) by {
            if d.index() == n - 1 {
                assert(d == e);
            }
        }
        if dir_sum(b, s, q, n) > 0 {
            if dir_count(b, s, q, e) > 0 {
                assert(e.index() < n && dir_count(b, s, q, e) > 0);
            } else {
                let d = choose|d: Direction| d.index() < n - 1 && #[trigger] dir_count(b, s, q, d) > 0;
                assert(d.index() < n && dir_count(b, s, q, d) > 0);
            }
        }
    }
}

/// A piece does not attack the square on which it stands.
pub proof fn lemma_attack_goes_elsewhere(b: Seq<Piece>, occ: Bitboard, t: int, q: int)
    requires
        b.len() == 81,
        0 <= t < 81,
        forall|x: int| occ.has(x) == (0 <= x < 81 && b[x] != Piece::NoPiece),
        attacks(b[t], Square(t as i32), occ, q),
    ensures
        0 <= q < 81,
        q != t,
{
    let src = Square(t as i32);
    let pc = b[t];
    if melee_hits(pc, src, q) {
        let d = choose|d: Direction| pc.steps(d) && #[trigger] offset_hits(src, d.dc(), d.dr(), q);
        assert(d.dc() != 0 || d.dr() != 0);
    } else if jump_hits(pc, src, q) {
    } else {
        let d = choose|d: Direction| pc.slides(d) && #[trigger] slide_hits(occ, src, d, q);
        lemma_ray_reach(b, occ, t / 9, t % 9, d, q, 8);
        let k = choose|k: int|
            1 <= k <= 8 && inb(t / 9 + k * d.dc(), t % 9 + k * d.dr()) && q == 9 * (t / 9 + k * d.dc())
                + (t % 9 + k * d.dr()) && #[trigger] clear_run(b, t / 9, t % 9, d, k);
        lemma_far(t / 9, t % 9, d, k);
    }
}

/// A step onto a square is an attack by the piece that steps.
pub proof fn lemma_step_is_attack(b: Seq<Piece>, occ: Bitboard, s: Side, q: int, d: Direction)
    requires
        0 <= q < 81,
        step_onto(b, s, q, d),
    ensures
        ({
            let m = 9 * (q / 9 - d.dc()) + (q % 9 - d.dr());
            0 <= m < 81 && b[m].is_of(s) && attacks(b[m], Square(m as i32), occ, q)
        }),
{
    let m = 9 * (q / 9 - d.dc()) + (q % 9 - d.dr());
    assert(offset_hits(Square(m as i32), d.dc(), d.dr(), q));
    assert(melee_hits(b[m], Square(m as i32), q));
}

/// A shadow on a square goes with an attack by the piece that carries it.
pub proof fn lemma_shadow_is_attack(b: Seq<Piece>, occ: Bitboard, s: Side, q: int, d: Direction)
    requires
        0 <= q < 81,
        forall|x: int| occ.has(x) == (0 <= x < 81 && b[x] != Piece::NoPiece),
        shadow_onto(b, s, q, d),
    ensures
        ({
            let m = 9 * (q / 9 - d.dc()) + (q % 9 - d.dr());
            0 <= m < 81 && b[m].is_of(s) && attacks(b[m], Square(m as i32), occ, q)
        }),
{
    let mc = q / 9 - d.dc();
    let mr = q % 9 - d.dr();
    let m = 9 * mc + mr;
    if b[m].steps(d) {
        assert(offset_hits(Square(m as i32), d.dc(), d.dr(), q));
        assert(melee_hits(b[m], Square(m as i32), q));
    } else {
        assert(b[m].slides(d));
        assert(ray_reach(occ, mc, mr, d, q, 8));
        assert(slide_hits(occ, Square(m as i32), d, q));
        assert(ranged_hits(b[m], Square(m as i32), occ, q));
    }
}

/// A jump onto a square is an attack by the knight that jumps.
pub proof fn lemma_jump_is_attack(b: Seq<Piece>, occ: Bitboard, s: Side, q: int, dc: int)
    requires
        0 <= q < 81,
        dc == 1 || dc == -1,
        jump_onto(b, s, q, dc),
    ensures
        ({
            let m = 9 * (q / 9 + dc) + (q % 9 - 2 * Piece::forward(s).dr());
            0 <= m < 81 && b[m].is_of(s) && attacks(b[m], Square(m as i32), occ, q)
        }),
{
    let m = 9 * (q / 9 + dc) + (q % 9 - 2 * Piece::forward(s).dr());
    assert(jump_hits(b[m], Square(m as i32), q));
}

/// What one direction adds to a count comes from a piece that attacks.
pub proof fn lemma_dir_is_attack(b: Seq<Piece>, occ: Bitboard, s: Side, q: int, d: Direction)
    requires
        b.len() == 81,
        0 <= q < 81,
        forall|x: int| occ.has(x) == (0 <= x < 81 && b[x] != Piece::NoPiece),
        dir_count(b, s, q, d) > 0,
    ensures
        exists|t: int| 0 <= t < 81 && b[t].is_of(s) && #[trigger] attacks(b[t], Square(t as i32), occ, q),
{
    let m = 9 * (q / 9 - d.dc()) + (q % 9 - d.dr());
    if step_onto(b, s, q, d) {
        lemma_step_is_attack(b, occ, s, q, d);
        assert(0 <= m < 81 && b[m].is_of(s) && attacks(b[m], Square(m as i32), occ, q));
    } else if ray_onto(b, s, q, d) {
        lemma_ray_onto(b, occ, s, q, d);
        let t = choose|t: int|
            0 <= t < 81 && b[t].is_of(s) && b[t].slides(d) && #[trigger] slide_hits(
                occ,
                Square(t as i32),
                d,
                q,
            );
        assert(ranged_hits(b[t], Square(t as i32), occ, q));
        assert(0 <= t < 81 && b[t].is_of(s) && attacks(b[t], Square(t as i32), occ, q));
    } else {
        lemma_shadow_is_attack(b, occ, s, q, d);
        assert(0 <= m < 81 && b[m].is_of(s) && attacks(b[m], Square(m as i32), occ, q));
    }
}

/// A piece that attacks a square by a step is counted on it.
pub proof fn lemma_melee_is_counted(b: Seq<Piece>, s: Side, t: int, q: int)
    requires
        0 <= q < 81,
        0 <= t < 81,
        b[t].is_of(s),
        melee_hits(b[t], Square(t as i32), q),
    ensures
        exists|d: Direction| #[trigger] dir_count(b, s, q, d) >= 1,
{
    let src = Square(t as i32);
    let d = choose|d: Direction| b[t].steps(d) && #[trigger] offset_hits(src, d.dc(), d.dr(), q);
    assert(step_onto(b, s, q, d));
    assert(dir_count(b, s, q, d) >= 1);
}

/// A knight that attacks a square is counted on it.
pub proof fn lemma_jump_is_counted(b: Seq<Piece>, s: Side, t: int, q: int)
    requires
        0 <= q < 81,
        0 <= t < 81,
        b[t].is_of(s),
        jump_hits(b[t], Square(t as i32), q),
    ensures
        jump_onto(b, s, q, 1) || jump_onto(b, s, q, -1),
{
    let src = Square(t as i32);
    if offset_hits(src, 1, 2 * Piece::forward(s).dr(), q) {
        assert(jump_onto(b, s, q, -1));
    } else {
        assert(jump_onto(b, s, q, 1));
    }
}

/// A piece that attacks a square along a ray is counted on it.
pub proof fn lemma_ranged_is_counted(b: Seq<Piece>, occ: Bitboard, s: Side, t: int, q: int)
    requires
        b.len() == 81,
        0 <= q < 81,
        0 <= t < 81,
        b[t].is_of(s),
        forall|x: int| occ.has(x) == (0 <= x < 81 && b[x] != Piece::NoPiece),
        ranged_hits(b[t], Square(t as i32), occ, q),
    ensures
        exists|d: Direction| #[trigger] dir_count(b, s, q, d) >= 1,
{
    let src = Square(t as i32);
    let d = choose|d: Direction| b[t].slides(d) && #[trigger] slide_hits(occ, src, d, q);
    lemma_ray_onto(b, occ, s, q, d);
    assert(ray_onto(b, s, q, d));
    assert(dir_count(b, s, q, d) >= 1);
}

/// A piece that attacks a square is counted on it.
pub proof fn lemma_attack_is_counted(b: Seq<Piece>, occ: Bitboard, s: Side, t: int, q: int)
    requires
        b.len() == 81,
        0 <= q < 81,
        0 <= t < 81,
        b[t].is_of(s),
        forall|x: int| occ.has(x) == (0 <= x < 81 && b[x] != Piece::NoPiece),
        attacks(b[t], Square(t as i32), occ, q),
    ensures
        attack_count(b, s, q) > 0,
{
    lemma_dir_sum(b, s, q, 8);
    if melee_hits(b[t], Square(t as i32), q) {
        lemma_melee_is_counted(b, s, t, q);
        let d = choose|d: Direction| #[trigger] dir_count(b, s, q, d) >= 1;
        assert(d.index() < 8);
    } else if jump_hits(b[t], Square(t as i32), q) {
        lemma_jump_is_counted(b, s, t, q);
    } else {
        lemma_ranged_is_counted(b, occ, s, t, q);
        let d = choose|d: Direction| #[trigger] dir_count(b, s, q, d) >= 1;
        assert(d.index() < 8);
    }
}

/// A side's attack count on a square is positive exactly when one of its
/// pieces attacks the square: shadows never stand alone.
pub proof fn lemma_count_means_attacker(b: Seq<Piece>, occ: Bitboard, s: Side, q: int)
    requires
        b.len() == 81,
        0 <= q < 81,
        forall|x: int| occ.has(x) == (0 <= x < 81 && b[x] != Piece::NoPiece),
    ensures
        (attack_count(b, s, q) > 0) == (exists|t: int|
            0 <= t < 81 && b[t].is_of(s) && #[trigger] attacks(b[t], Square(t as i32), occ, q)),
{
    lemma_dir_sum(b, s, q, 8);
    if attack_count(b, s, q) > 0 {
        if dir_sum(b, s, q, 8) > 0 {
            let d = choose|d: Direction| d.index() < 8 && #[trigger] dir_count(b, s, q, d) > 0;
            lemma_dir_is_attack(b, occ, s, q, d);
        } else {
            let dc: int = if jump_onto(b, s, q, 1) { 1 } else { -1 };
            lemma_jump_is_attack(b, occ, s, q, dc);
            let m = 9 * (q / 9 + dc) + (q % 9 - 2 * Piece::forward(s).dr());
            assert(0 <= m < 81 && b[m].is_of(s) && attacks(b[m], Square(m as i32), occ, q));
        }
    }
    if exists|t: int|
        0 <= t < 81 && b[t].is_of(s) && #[trigger] attacks(b[t], Square(t as i32), occ, q) {
        let t = choose|t: int|
            0 <= t < 81 && b[t].is_of(s) && #[trigger] attacks(b[t], Square(t as i32), occ, q);
        lemma_attack_is_counted(b, occ, s, t, q);
    }
}

/// Whether `mv` moves a piece of `mover` as the piece moves, promoting or
/// not as the rules allow; what stands on the destination is not looked at.
/// These are the moves of the generator before the squares that hold the
/// mover's own pieces are taken out.
pub open spec fn relaxed_move(pos: Position, mover: Side, mv: Move) -> bool {
    walk_ok(Position { side_to_move: mover, ..pos }, mv)
}

/// A piece that attacks a square has a move onto it.
pub proof fn lemma_attacker_has_move(pos: Position, mover: Side, t: int, k: Square)
    requires
        pos.bb_ok(),
        0 <= t < 81,
        pos.board@[t].is_of(mover),
        attacks(pos.board@[t], Square(t as i32), pos.bb_occ, k.0 as int),
    ensures
        exists|mv: Move| #[trigger] relaxed_move(pos, mover, mv) && mv.spec_dst() == k,
{
    let b = pos.board@;
    let q = k.0 as int;
    lemma_attack_goes_elsewhere(b, pos.bb_occ, t, q);
    let pk = b[t].spec_kind();
    let promo = dead_end(pk, mover, k);
    let v: int = q + 128 * t + (if promo { 32768int } else { 0int });
    let mv = Move(v as u32);
    assert(mv.spec_dst() == k);
    assert(mv.spec_src() == Square(t as i32));
    assert(mv.spec_is_promotion() == promo);
    assert(!mv.spec_is_drop());
    assert(plain_walk(mv));
    assert(promo_rule(pk, mover, Square(t as i32), k, promo));
    assert(relaxed_move(pos, mover, mv) && mv.spec_dst() == k);
}

/// The king of `side` is attacked exactly when the other side has a move,
/// as its pieces move, onto the king's square.
pub proof fn lemma_check_means_capture(pos: Position, side: Side)
    requires
        pos.wf(),
    ensures
        (attack_count(pos.board@, side.opp(), pos.king(side).0 as int) > 0) == (exists|mv: Move| #[trigger]
            relaxed_move(pos, side.opp(), mv) && mv.spec_dst() == pos.king(side)),
{
    let b = pos.board@;
    let them = side.opp();
    let k = pos.king(side);
    let q = k.0 as int;
    lemma_count_means_attacker(b, pos.bb_occ, them, q);
    if attack_count(b, them, q) > 0 {
        let t = choose|t: int|
            0 <= t < 81 && b[t].is_of(them) && #[trigger] attacks(b[t], Square(t as i32), pos.bb_occ, q);
        lemma_attacker_has_move(pos, them, t, k);
    }
    if exists|mv: Move| #[trigger] relaxed_move(pos, them, mv) && mv.spec_dst() == k {
        let mv = choose|mv: Move| #[trigger] relaxed_move(pos, them, mv) && mv.spec_dst() == k;
        let t = mv.spec_src().0 as int;
        assert(0 <= t < 81 && b[t].is_of(them) && attacks(b[t], Square(t as i32), pos.bb_occ, q));
    }
}

/// Every pseudo-legal move starts from a piece of the side to move, or
/// drops a kind that the side holds, and lands on a square that holds no
/// piece of that side.
pub proof fn lemma_pseudo_legal_sound(pos: Position, mv: Move)
    requires
        pseudo_legal(pos, mv),
    ensures
        mv.spec_is_drop() ==> pos.hands.of(pos.side_to_move).count(mv.dropped()) > 0,
        !mv.spec_is_drop() ==> pos.board@[mv.spec_src().0 as int].is_of(pos.side_to_move),
        !pos.board@[mv.spec_dst().0 as int].is_of(pos.side_to_move),
{
}

/// The moves of COM in the order of the console are fixed by the board and
/// COM's hand: positions that agree on these have the same moves in the
/// same order, whatever came before.
pub proof fn lemma_com_moves_determined(p: Position, q: Position)
    requires
        p.board@ == q.board@,
        p.hands.of(Side::Com)@ == q.hands.of(Side::Com)@,
    ensures
        com_moves(p.board@, p.hands.of(Side::Com)) == com_moves(q.board@, q.hands.of(Side::Com)),
{
    assert(p.hands.of(Side::Com).0 =~= q.hands.of(Side::Com).0);
}

/// Whether the move `m` of COM starts from a piece of COM, or drops a
/// kind that COM holds on an empty square, and lands on a square of the
/// board that holds no piece of COM.
pub open spec fn com_move_ok(b: Seq<Piece>, hand: Hand, m: Move) -> bool {
    &&& m.spec_dst().on_board()
    &&& !b[m.spec_dst().0 as int].is_of(Side::Com)
    &&& if m.spec_is_drop() {
        hand.count(m.dropped()) > 0 && b[m.spec_dst().0 as int] == Piece::NoPiece
    } else {
        m.spec_src().on_board() && b[m.spec_src().0 as int].is_of(Side::Com)
    }
}

/// Whether every move of `s` is a move that `com_move_ok` allows.
pub open spec fn all_com_ok(b: Seq<Piece>, hand: Hand, s: Seq<Move>) -> bool {
    forall|i: int| 0 <= i < s.len() ==> com_move_ok(b, hand, #[trigger] s[i])
}

/// What holds of all moves of two lists holds of all moves of the two lists
/// put together.
pub proof fn lemma_all_com_ok_add(b: Seq<Piece>, hand: Hand, x: Seq<Move>, y: Seq<Move>)
    requires
        all_com_ok(b, hand, x),
        all_com_ok(b, hand, y),
    ensures
        all_com_ok(b, hand, x + y),
{
    assert forall|i: int| 0 <= i < (x + y).len() implies com_move_ok(b, hand, #[trigger] (x + y)[i]) by {
        if i < x.len() {
            assert((x + y)[i] == x[i]);
        } else {
            assert((x + y)[i] == y[i - x.len()]);
        }
    }
}

/// The move of a piece of COM between two squares of the board.
pub proof fn lemma_com_walk(b: Seq<Piece>, hand: Hand, pk: PieceKind, src: Square, dst: Square)
    requires
        src.on_board(),
        dst.on_board(),
        b[src.0 as int].is_of(Side::Com),
        !b[dst.0 as int].is_of(Side::Com),
    ensures
        com_move_ok(b, hand, com_walk(pk, src, dst)),
{
    let m = com_walk(pk, src, dst);
    assert(m.spec_dst() == dst);
    assert(m.spec_src() == src);
    assert(!m.spec_is_drop());
}

/// The moves along one ray are moves that `com_move_ok` allows.
pub proof fn lemma_com_ray_ok(
    b: Seq<Piece>,
    hand: Hand,
    pk: PieceKind,
    src: Square,
    c: int,
    r: int,
    dc: int,
    dr: int,
    n: nat,
)
    requires
        src.on_board(),
        b[src.0 as int].is_of(Side::Com),
    ensures
        all_com_ok(b, hand, com_ray_moves(b, pk, src, c, r, dc, dr, n)),
    decreases n,
{
    if n > 0 {
        let c1 = c + dc;
        let r1 = r + dr;
        if inb(c1, r1) && !b[9 * c1 + r1].is_of(Side::Com) {
            let m = com_walk(pk, src, Square::at(c1, r1));
            lemma_com_walk(b, hand, pk, src, Square::at(c1, r1));
            assert(all_com_ok(b, hand, seq![m]));
            if b[9 * c1 + r1] == Piece::NoPiece {
                lemma_com_ray_ok(b, hand, pk, src, c1, r1, dc, dr, (n - 1) as nat);
                lemma_all_com_ok_add(
                    b,
                    hand,
                    seq![m],
                    com_ray_moves(b, pk, src, c1, r1, dc, dr, (n - 1) as nat),
                );
            }
        }
    }
}

/// The moves of a piece of COM are moves that `com_move_ok` allows.
pub proof fn lemma_com_walks_ok(b: Seq<Piece>, hand: Hand, pk: PieceKind, src: Square)
    requires
        src.on_board(),
        b[src.0 as int].is_of(Side::Com),
    ensures
        all_com_ok(b, hand, com_walks(b, pk, src)),
{
    lemma_com_rays_ok(b, hand, pk, src, ranged_deltas(pk).len() as int);
    lemma_com_steps_ok(b, hand, pk, src, melee_deltas(pk).len() as int);
    lemma_all_com_ok_add(
        b,
        hand,
        com_rays_upto(b, pk, src, ranged_deltas(pk).len() as int),
        com_steps_upto(b, pk, src, melee_deltas(pk).len() as int),
    );
}

/// The moves along the first `i` rays are moves that `com_move_ok` allows.
pub proof fn lemma_com_rays_ok(b: Seq<Piece>, hand: Hand, pk: PieceKind, src: Square, i: int)
    requires
        src.on_board(),
        b[src.0 as int].is_of(Side::Com),
    ensures
        all_com_ok(b, hand, com_rays_upto(b, pk, src, i)),
    decreases i,
{
    if i > 0 {
        let d = ranged_deltas(pk)[i - 1];
        lemma_com_rays_ok(b, hand, pk, src, i - 1);
        lemma_com_ray_ok(b, hand, pk, src, src.c(), src.r(), d.0 as int, d.1 as int, 8);
        lemma_all_com_ok_add(
            b,
            hand,
            com_rays_upto(b, pk, src, i - 1),
            com_ray_moves(b, pk, src, src.c(), src.r(), d.0 as int, d.1 as int, 8),
        );
    }
}

/// The moves by the first `i` steps are moves that `com_move_ok` allows.
pub proof fn lemma_com_steps_ok(b: Seq<Piece>, hand: Hand, pk: PieceKind, src: Square, i: int)
    requires
        src.on_board(),
        b[src.0 as int].is_of(Side::Com),
    ensures
        all_com_ok(b, hand, com_steps_upto(b, pk, src, i)),
    decreases i,
{
    if i > 0 {
        let d = melee_deltas(pk)[i - 1];
        lemma_com_steps_ok(b, hand, pk, src, i - 1);
        let c1 = src.c() + d.0;
        let r1 = src.r() + d.1;
        let one = com_step_moves(b, pk, src, d.0 as int, d.1 as int);
        if inb(c1, r1) && !b[9 * c1 + r1].is_of(Side::Com) {
            lemma_com_walk(b, hand, pk, src, Square::at(c1, r1));
        }
        assert(all_com_ok(b, hand, one));
        lemma_all_com_ok_add(b, hand, com_steps_upto(b, pk, src, i - 1), one);
    }
}

/// A drop that is made when COM holds the kind, on an empty square.
pub proof fn lemma_drop_if_ok(b: Seq<Piece>, hand: Hand, ok: bool, pk: PieceKind, dst: Square)
    requires
        dst.on_board(),
        b[dst.0 as int] == Piece::NoPiece,
        pk.spec_is_hand(),
        ok ==> hand.count(pk) > 0,
    ensures
        all_com_ok(b, hand, drop_if(ok, pk, dst)),
{
    if ok {
        let m = drop_if(ok, pk, dst)[0];
        assert(m.spec_dst() == dst);
        assert(m.spec_is_drop());
        assert(m.from_field() == pk.value());
        assert(m.dropped() == pk);
    }
}

/// The drops on an empty square are moves that `com_move_ok` allows.
pub proof fn lemma_com_drops_ok(b: Seq<Piece>, hand: Hand, dst: Square)
    requires
        dst.on_board(),
        b[dst.0 as int] == Piece::NoPiece,
    ensures
        all_com_ok(b, hand, com_drops(b, hand, dst)),
{
    let d1 = drop_if(
        hand.count(PieceKind::Pawn) > 0 && crate::movegen::com::com_pawn_ok(b, dst.0 as int),
        PieceKind::Pawn,
        dst,
    );
    let d2 = drop_if(hand.count(PieceKind::Lance) > 0 && dst.r() != 8, PieceKind::Lance, dst);
    let d3 = drop_if(hand.count(PieceKind::Knight) > 0 && dst.r() <= 6, PieceKind::Knight, dst);
    let d4 = drop_if(hand.count(PieceKind::Silver) > 0, PieceKind::Silver, dst);
    let d5 = drop_if(hand.count(PieceKind::Gold) > 0, PieceKind::Gold, dst);
    let d6 = drop_if(hand.count(PieceKind::Bishop) > 0, PieceKind::Bishop, dst);
    let d7 = drop_if(hand.count(PieceKind::Rook) > 0, PieceKind::Rook, dst);
    lemma_drop_if_ok(
        b,
        hand,
        hand.count(PieceKind::Pawn) > 0 && crate::movegen::com::com_pawn_ok(b, dst.0 as int),
        PieceKind::Pawn,
        dst,
    );
    lemma_drop_if_ok(b, hand, hand.count(PieceKind::Lance) > 0 && dst.r() != 8, PieceKind::Lance, dst);
    lemma_drop_if_ok(b, hand, hand.count(PieceKind::Knight) > 0 && dst.r() <= 6, PieceKind::Knight, dst);
    lemma_drop_if_ok(b, hand, hand.count(PieceKind::Silver) > 0, PieceKind::Silver, dst);
    lemma_drop_if_ok(b, hand, hand.count(PieceKind::Gold) > 0, PieceKind::Gold, dst);
    lemma_drop_if_ok(b, hand, hand.count(PieceKind::Bishop) > 0, PieceKind::Bishop, dst);
    lemma_drop_if_ok(b, hand, hand.count(PieceKind::Rook) > 0, PieceKind::Rook, dst);
    lemma_all_com_ok_add(b, hand, d1, d2);
    lemma_all_com_ok_add(b, hand, d1 + d2, d3);
    lemma_all_com_ok_add(b, hand, d1 + d2 + d3, d4);
    lemma_all_com_ok_add(b, hand, d1 + d2 + d3 + d4, d5);
    lemma_all_com_ok_add(b, hand, d1 + d2 + d3 + d4 + d5, d6);
    lemma_all_com_ok_add(b, hand, d1 + d2 + d3 + d4 + d5 + d6, d7);
}

/// The moves that the first `n` squares of the scan give are moves that
/// `com_move_ok` allows.
pub proof fn lemma_com_moves_upto_ok(b: Seq<Piece>, hand: Hand, n: int)
    requires
        0 <= n <= 81,
        b.len() == 81,
    ensures
        all_com_ok(b, hand, com_moves_upto(b, hand, n)),
    decreases n,
{
    if n > 0 {
        lemma_com_moves_upto_ok(b, hand, n - 1);
        let sq = scan_square(n - 1);
        let pc = b[sq.0 as int];
        if pc == Piece::NoPiece {
            lemma_com_drops_ok(b, hand, sq);
        } else if pc.is_of(Side::Com) {
            lemma_com_walks_ok(b, hand, pc.spec_kind(), sq);
        }
        assert(all_com_ok(b, hand, com_square_moves(b, hand, sq)));
        lemma_all_com_ok_add(b, hand, com_moves_upto(b, hand, n - 1), com_square_moves(b, hand, sq));
    }
}

/// Every move of COM in the order of the console starts from a piece of
/// COM, or drops a kind that COM holds on an empty square, and lands on a
/// square that holds no piece of COM.
pub proof fn lemma_com_moves_sound(b: Seq<Piece>, hand: Hand, i: int)
    requires
        b.len() == 81,
        0 <= i < com_moves(b, hand).len(),
    ensures
        com_move_ok(b, hand, com_moves(b, hand)[i]),
{
    lemma_com_moves_upto_ok(b, hand, 81);
}

} // verus!
