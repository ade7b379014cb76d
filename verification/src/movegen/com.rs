//! The moves of COM in the order in which the console tries them.
//!
//! The squares are scanned rank by rank from the top, each rank from file 9
//! to file 1.  An empty square gives the drops on it, in the order pawn,
//! lance, knight, silver, gold, bishop, rook.  A square with a piece of COM
//! gives the moves of that piece: first along its rays, then its steps and
//! jumps, each in a fixed order.  A move that can promote does.

use vstd::prelude::*;
use crate::shogi::{Side, Square};
use crate::piece::{Piece, PieceKind};
use crate::moves::Move;
use crate::board::Hand;
use crate::bitboard::Bitboard;
use crate::bbs::{inb, offset_square, pawn_drop_mask};
use crate::position::Position;
use crate::movelist::{MoveArray, capped, lemma_capped_add};
use crate::naitou::{naitou_squares, scan_square};

verus! {

/// The steps, as changes of file and rank index, along which a kind of COM
/// moves by rays, in the order of the scan.
pub open spec fn ranged_deltas(pk: PieceKind) -> Seq<(i32, i32)> {
    match pk {
        PieceKind::Lance => seq![(0i32, 1i32)],
        PieceKind::Bishop | PieceKind::Horse => seq![(1i32, -1i32), (1i32, 1i32), (-1i32, -1i32), (-1i32, 1i32)],
        PieceKind::Rook | PieceKind::Dragon => seq![(0i32, -1i32), (0i32, 1i32), (1i32, 0i32), (-1i32, 0i32)],
        _ => Seq::empty(),
    }
}

/// The steps and jumps, as changes of file and rank index, that a kind of
/// COM makes, in the order of the scan.
pub open spec fn melee_deltas(pk: PieceKind) -> Seq<(i32, i32)> {
    match pk {
        PieceKind::Pawn => seq![(0i32, 1i32)],
        PieceKind::Knight => seq![(-1i32, 2i32), (1i32, 2i32)],
        PieceKind::Silver => seq![(-1i32, 1i32), (0i32, 1i32), (1i32, 1i32), (-1i32, -1i32), (1i32, -1i32)],
        PieceKind::Gold | PieceKind::ProPawn | PieceKind::ProLance | PieceKind::ProKnight
        | PieceKind::ProSilver => seq![
            (-1i32, 1i32),
            (0i32, 1i32),
            (1i32, 1i32),
            (-1i32, 0i32),
            (1i32, 0i32),
            (0i32, -1i32),
        ],
        PieceKind::King => seq![
            (-1i32, 1i32),
            (0i32, 1i32),
            (1i32, 1i32),
            (-1i32, 0i32),
            (1i32, 0i32),
            (-1i32, -1i32),
            (0i32, -1i32),
            (1i32, -1i32),
        ],
        PieceKind::Horse => seq![(0i32, 1i32), (-1i32, 0i32), (1i32, 0i32), (0i32, -1i32)],
        PieceKind::Dragon => seq![(-1i32, 1i32), (1i32, 1i32), (-1i32, -1i32), (1i32, -1i32)],
        _ => Seq::empty(),
    }
}

/// The move of a piece of COM of kind `pk` from `src` to `dst`: with
/// promotion whenever the kind can promote and one of the two squares lies
/// in COM's promotion zone.
pub open spec fn com_walk(pk: PieceKind, src: Square, dst: Square) -> Move {
    if pk.spec_is_promotable() && (src.r() >= 6 || dst.r() >= 6) {
        Move((dst.0 + 128 * src.0 + 32768) as u32)
    } else {
        Move((dst.0 + 128 * src.0) as u32)
    }
}

/// The moves along one ray, nearest square first: the ray starts after
/// file `c`, rank `r`, goes by `dc`, `dr`, and ends before a piece of COM or
/// on a piece of HUM.
pub open spec fn com_ray_moves(
    b: Seq<Piece>,
    pk: PieceKind,
    src: Square,
    c: int,
    r: int,
    dc: int,
    dr: int,
    n: nat,
) -> Seq<Move>
    decreases n,
{
    if n == 0 {
        Seq::empty()
    } else {
        let c1 = c + dc;
        let r1 = r + dr;
        if !inb(c1, r1) || b[9 * c1 + r1].is_of(Side::Com) {
            Seq::empty()
        } else if b[9 * c1 + r1] != Piece::NoPiece {
            seq![com_walk(pk, src, Square::at(c1, r1))]
        } else {
            seq![com_walk(pk, src, Square::at(c1, r1))] + com_ray_moves(
                b,
                pk,
                src,
                c1,
                r1,
                dc,
                dr,
                (n - 1) as nat,
            )
        }
    }
}

/// The move by one step or jump, if its square is on the board and holds
/// no piece of COM.
pub open spec fn com_step_moves(b: Seq<Piece>, pk: PieceKind, src: Square, dc: int, dr: int) -> Seq<
    Move,
> {
    let c1 = src.c() + dc;
    let r1 = src.r() + dr;
    if inb(c1, r1) && !b[9 * c1 + r1].is_of(Side::Com) {
        seq![com_walk(pk, src, Square::at(c1, r1))]
    } else {
        Seq::empty()
    }
}

/// The moves along the first `i` rays of the kind.
pub open spec fn com_rays_upto(b: Seq<Piece>, pk: PieceKind, src: Square, i: int) -> Seq<Move>
    decreases i,
{
    if i <= 0 {
        Seq::empty()
    } else {
        let d = ranged_deltas(pk)[i - 1];
        com_rays_upto(b, pk, src, i - 1) + com_ray_moves(
            b,
            pk,
            src,
            src.c(),
            src.r(),
            d.0 as int,
            d.1 as int,
            8,
        )
    }
}

/// The moves by the first `i` steps and jumps of the kind.
pub open spec fn com_steps_upto(b: Seq<Piece>, pk: PieceKind, src: Square, i: int) -> Seq<Move>
    decreases i,
{
    if i <= 0 {
        Seq::empty()
    } else {
        let d = melee_deltas(pk)[i - 1];
        com_steps_upto(b, pk, src, i - 1) + com_step_moves(b, pk, src, d.0 as int, d.1 as int)
    }
}

/// The moves of the piece of COM of kind `pk` on `src`.
pub open spec fn com_walks(b: Seq<Piece>, pk: PieceKind, src: Square) -> Seq<Move> {
    com_rays_upto(b, pk, src, ranged_deltas(pk).len() as int) + com_steps_upto(
        b,
        pk,
        src,
        melee_deltas(pk).len() as int,
    )
}

/// Whether COM may drop a pawn on square `q`: its file holds no pawn of
/// COM, and `q` is not on rank 9.
pub open spec fn com_pawn_ok(b: Seq<Piece>, q: int) -> bool {
    q % 9 != 8 && forall|t: int| 0 <= t < 81 && t / 9 == q / 9 ==> b[t] != Piece::CPawn
}

/// The drop of `pk` on `dst`, if `ok`.
pub open spec fn drop_if(ok: bool, pk: PieceKind, dst: Square) -> Seq<Move> {
    if ok {
        seq![Move((dst.0 + 128 * pk.value() + 16384) as u32)]
    } else {
        Seq::empty()
    }
}

/// The drops of COM on the empty square `dst`.
pub open spec fn com_drops(b: Seq<Piece>, hand: Hand, dst: Square) -> Seq<Move> {
    drop_if(hand.count(PieceKind::Pawn) > 0 && com_pawn_ok(b, dst.0 as int), PieceKind::Pawn, dst)
        + drop_if(hand.count(PieceKind::Lance) > 0 && dst.r() != 8, PieceKind::Lance, dst)
        + drop_if(hand.count(PieceKind::Knight) > 0 && dst.r() <= 6, PieceKind::Knight, dst)
        + drop_if(hand.count(PieceKind::Silver) > 0, PieceKind::Silver, dst) + drop_if(
        hand.count(PieceKind::Gold) > 0,
        PieceKind::Gold,
        dst,
    ) + drop_if(hand.count(PieceKind::Bishop) > 0, PieceKind::Bishop, dst) + drop_if(
        hand.count(PieceKind::Rook) > 0,
        PieceKind::Rook,
        dst,
    )
}

/// The moves that square `sq` gives.
pub open spec fn com_square_moves(b: Seq<Piece>, hand: Hand, sq: Square) -> Seq<Move> {
    let pc = b[sq.0 as int];
    if pc == Piece::NoPiece {
        com_drops(b, hand, sq)
    } else if pc.is_of(Side::Com) {
        com_walks(b, pc.spec_kind(), sq)
    } else {
        Seq::empty()
    }
}

/// The moves that the first `n` squares of the scan give.
pub open spec fn com_moves_upto(b: Seq<Piece>, hand: Hand, n: int) -> Seq<Move>
    decreases n,
{
    if n <= 0 {
        Seq::empty()
    } else {
        com_moves_upto(b, hand, n - 1) + com_square_moves(b, hand, scan_square(n - 1))
    }
}

/// All moves of COM on board `b` with hand `hand`, in the order of the
/// console.
pub open spec fn com_moves(b: Seq<Piece>, hand: Hand) -> Seq<Move> {
    com_moves_upto(b, hand, 81)
}

/// The rays of a kind of COM.
pub fn effect_ranged(pk: PieceKind) -> (r: Vec<(i32, i32)>)
    ensures
        r@ == ranged_deltas(pk),
        forall|i: int| 0 <= i < r@.len() ==> -1 <= (#[trigger] r@[i]).0 <= 1 && -1 <= r@[i].1 <= 1,
{
    let r: Vec<(i32, i32)> = match pk {
        PieceKind::Lance => vec![(0i32, 1i32)],
        PieceKind::Bishop | PieceKind::Horse => vec![(1i32, -1i32), (1i32, 1i32), (-1i32, -1i32), (-1i32, 1i32)],
        PieceKind::Rook | PieceKind::Dragon => vec![(0i32, -1i32), (0i32, 1i32), (1i32, 0i32), (-1i32, 0i32)],
        _ => Vec::new(),
    };
    assert(r@ =~= ranged_deltas(pk));
    r
}

/// The steps and jumps of a kind of COM.
pub fn effect_melee(pk: PieceKind) -> (r: Vec<(i32, i32)>)
    ensures
        r@ == melee_deltas(pk),
        forall|i: int| 0 <= i < r@.len() ==> -1 <= (#[trigger] r@[i]).0 <= 1 && -1 <= r@[i].1 <= 2,
{
    let r: Vec<(i32, i32)> = match pk {
        PieceKind::Pawn => vec![(0i32, 1i32)],
        PieceKind::Knight => vec![(-1i32, 2i32), (1i32, 2i32)],
        PieceKind::Silver => vec![(-1i32, 1i32), (0i32, 1i32), (1i32, 1i32), (-1i32, -1i32), (1i32, -1i32)],
        PieceKind::Gold | PieceKind::ProPawn | PieceKind::ProLance | PieceKind::ProKnight
        | PieceKind::ProSilver => vec![
            (-1i32, 1i32),
            (0i32, 1i32),
            (1i32, 1i32),
            (-1i32, 0i32),
            (1i32, 0i32),
            (0i32, -1i32),
        ],
        PieceKind::King => vec![
            (-1i32, 1i32),
            (0i32, 1i32),
            (1i32, 1i32),
            (-1i32, 0i32),
            (1i32, 0i32),
            (-1i32, -1i32),
            (0i32, -1i32),
            (1i32, -1i32),
        ],
        PieceKind::Horse => vec![(0i32, 1i32), (-1i32, 0i32), (1i32, 0i32), (0i32, -1i32)],
        PieceKind::Dragon => vec![(-1i32, 1i32), (1i32, 1i32), (-1i32, -1i32), (1i32, -1i32)],
        _ => Vec::new(),
    };
    assert(r@ =~= melee_deltas(pk));
    r
}

/// Adds the move of a piece of COM of kind `pk` from `src` to `dst`, with
/// promotion whenever it can promote.
pub fn generate_walk_helper(pk: PieceKind, src: Square, dst: Square, mvs: &mut MoveArray)
    requires
        src.on_board(),
        dst.on_board(),
        src != dst,
    ensures
        final(mvs)@ == capped(old(mvs)@ + seq![com_walk(pk, src, dst)]),
{
    let promo: bool = pk.is_promotable() && (src.is_promotion_zone(Side::Com)
        || dst.is_promotion_zone(Side::Com));
    if promo {
        mvs.push(Move::new_walk_promotion(src, dst));
    } else {
        mvs.push(Move::new_walk(src, dst));
    }
    assert(old(mvs)@.push(com_walk(pk, src, dst)) =~= old(mvs)@ + seq![com_walk(pk, src, dst)]);
}

/// Capping after each of two additions is capping after both.
pub proof fn lemma_capped_step(start: Seq<Move>, s: Seq<Move>, d: Seq<Move>)
    ensures
        capped(capped(start + s) + d) == capped(start + (s + d)),
        capped(start + Seq::<Move>::empty()) == capped(start),
        start + Seq::<Move>::empty() == start,
{
    lemma_capped_add(start + s, d);
    assert((start + s) + d =~= start + (s + d));
    assert(start + Seq::<Move>::empty() =~= start);
}

/// Adds the moves of the piece of COM of kind `pk` on `src` along the ray
/// that goes by `dc`, `dr`.
pub fn generate_moves_com_ray(
    pos: &Position,
    src: Square,
    pk: PieceKind,
    dc: i32,
    dr: i32,
    mvs: &mut MoveArray,
)
    requires
        src.on_board(),
        -1 <= dc <= 1,
        -1 <= dr <= 1,
        dc != 0 || dr != 0,
    ensures
        final(mvs)@ == capped(
            old(mvs)@ + com_ray_moves(pos.board@, pk, src, src.c(), src.r(), dc as int, dr as int, 8),
        ),
{
    let ghost b = pos.board@;
    let ghost base = mvs@;
    let ghost whole = com_ray_moves(b, pk, src, src.c(), src.r(), dc as int, dr as int, 8);
    let ghost mut emitted: Seq<Move> = Seq::empty();
    let mut cur: Square = src;
    let mut n: u32 = 0;
    let mut go: bool = true;
    let _held: usize = mvs.len();
    proof {
        lemma_capped_step(base, emitted, whole);
        assert(emitted + whole =~= whole);
    }
    while go && n < 8
        invariant
            cur.on_board(),
            src.on_board(),
            n <= 8,
            -1 <= dc <= 1,
            -1 <= dr <= 1,
            b == pos.board@,
            whole == com_ray_moves(b, pk, src, src.c(), src.r(), dc as int, dr as int, 8),
            mvs@ == capped(base + emitted),
            go ==> emitted + com_ray_moves(
                b,
                pk,
                src,
                cur.c(),
                cur.r(),
                dc as int,
                dr as int,
                (8 - n) as nat,
            ) == whole,
            !go ==> emitted == whole,
            cur.c() == src.c() + (if dc == 0 { 0int } else if dc == 1 { n as int } else { -(n as int) }),
            cur.r() == src.r() + (if dr == 0 { 0int } else if dr == 1 { n as int } else { -(n as int) }),
            dc != 0 || dr != 0,
        decreases (if go { 1int } else { 0int }), 8 - n,
    {
        let ghost rest = com_ray_moves(
            b,
            pk,
            src,
            cur.c(),
            cur.r(),
            dc as int,
            dr as int,
            (8 - n) as nat,
        );
        match offset_square(cur, dc, dr) {
            None => {
                go = false;
                proof {
                    assert(rest =~= Seq::<Move>::empty());
                    assert(emitted + rest =~= emitted);
                }
            },
            Some(nx) => {
                let pc: Piece = pos.board().get(nx);
                if pc.is_piece() && pc.side() == Side::Com {
                    go = false;
                    proof {
                        assert(rest =~= Seq::<Move>::empty());
                        assert(emitted + rest =~= emitted);
                    }
                } else {
                    let ghost m = com_walk(pk, src, nx);
                    generate_walk_helper(pk, src, nx, mvs);
                    proof {
                        lemma_capped_step(base, emitted, seq![m]);
                        let tail = com_ray_moves(
                            b,
                            pk,
                            src,
                            nx.c(),
                            nx.r(),
                            dc as int,
                            dr as int,
                            (8 - n - 1) as nat,
                        );
                        if pc != Piece::NoPiece {
                            assert(rest =~= seq![m]);
                        } else {
                            assert(rest =~= seq![m] + tail);
                            assert((emitted + seq![m]) + tail =~= emitted + (seq![m] + tail));
                        }
                        emitted = emitted + seq![m];
                    }
                    if pc.is_piece() {
                        go = false;
                    } else {
                        cur = nx;
                        n = n + 1;
                    }
                }
            },
        }
    }
    proof {
        if go {
            assert(com_ray_moves(b, pk, src, cur.c(), cur.r(), dc as int, dr as int, 0)
                =~= Seq::<Move>::empty());
            assert(emitted + Seq::<Move>::empty() =~= emitted);
        }
    }
}

/// Adds the move of the piece of COM of kind `pk` on `src` by the step or
/// jump `dc`, `dr`.
pub fn generate_moves_com_step(
    pos: &Position,
    src: Square,
    pk: PieceKind,
    dc: i32,
    dr: i32,
    mvs: &mut MoveArray,
)
    requires
        src.on_board(),
        -1 <= dc <= 1,
        -1 <= dr <= 2,
        dc != 0 || dr != 0,
    ensures
        final(mvs)@ == capped(
            old(mvs)@ + com_step_moves(pos.board@, pk, src, dc as int, dr as int),
        ),
{
    let _held: usize = mvs.len();
    proof {
        lemma_capped_step(mvs@, Seq::empty(), Seq::empty());
    }
    match offset_square(src, dc, dr) {
        None => {},
        Some(nx) => {
            let pc: Piece = pos.board().get(nx);
            if !(pc.is_piece() && pc.side() == Side::Com) {
                generate_walk_helper(pk, src, nx, mvs);
            }
        },
    }
}

/// Adds the moves of the piece of COM of kind `pk` on `src`.
pub fn generate_moves_com_walk(pos: &Position, src: Square, pk: PieceKind, mvs: &mut MoveArray)
    requires
        src.on_board(),
    ensures
        final(mvs)@ == capped(old(mvs)@ + com_walks(pos.board@, pk, src)),
{
    let ghost b = pos.board@;
    let ghost start = mvs@;
    let rays: Vec<(i32, i32)> = effect_ranged(pk);
    let mut i: usize = 0;
    let _held: usize = mvs.len();
    proof {
        lemma_capped_step(start, Seq::empty(), Seq::empty());
    }
    while i < rays.len()
        invariant
            i <= rays@.len(),
            src.on_board(),
            rays@ == ranged_deltas(pk),
            forall|k: int| 0 <= k < rays@.len() ==> -1 <= (#[trigger] rays@[k]).0 <= 1 && -1 <= rays@[k].1 <= 1,
            b == pos.board@,
            mvs@ == capped(start + com_rays_upto(b, pk, src, i as int)),
        decreases rays@.len() - i,
    {
        let (dc, dr) = rays[i];
        proof {
            lemma_ranged_nonzero(pk, i as int);
            lemma_capped_step(
                start,
                com_rays_upto(b, pk, src, i as int),
                com_ray_moves(b, pk, src, src.c(), src.r(), dc as int, dr as int, 8),
            );
        }
        generate_moves_com_ray(pos, src, pk, dc, dr, mvs);
        i += 1;
    }
    let steps: Vec<(i32, i32)> = effect_melee(pk);
    let ghost rays_all = com_rays_upto(b, pk, src, rays@.len() as int);
    let mut j: usize = 0;
    proof {
        assert(rays_all + com_steps_upto(b, pk, src, 0) =~= rays_all);
    }
    while j < steps.len()
        invariant
            j <= steps@.len(),
            src.on_board(),
            steps@ == melee_deltas(pk),
            forall|k: int| 0 <= k < steps@.len() ==> -1 <= (#[trigger] steps@[k]).0 <= 1 && -1 <= steps@[k].1 <= 2,
            b == pos.board@,
            mvs@ == capped(start + (rays_all + com_steps_upto(b, pk, src, j as int))),
        decreases steps@.len() - j,
    {
        let (dc, dr) = steps[j];
        proof {
            lemma_melee_nonzero(pk, j as int);
            let one = com_step_moves(b, pk, src, dc as int, dr as int);
            lemma_capped_step(start, rays_all + com_steps_upto(b, pk, src, j as int), one);
            assert((rays_all + com_steps_upto(b, pk, src, j as int)) + one =~= rays_all
                + com_steps_upto(b, pk, src, j + 1));
        }
        generate_moves_com_step(pos, src, pk, dc, dr, mvs);
        j += 1;
    }
}

/// Adds the drop of `pk` on `dst`, if `ok`.
pub fn push_drop_if(ok: bool, pk: PieceKind, dst: Square, mvs: &mut MoveArray)
    requires
        pk.is_hand(),
        dst.on_board(),
        old(mvs)@.len() <= 600,
    ensures
        final(mvs)@ == capped(old(mvs)@ + drop_if(ok, pk, dst)),
        final(mvs)@.len() <= 600,
{
    proof {
        lemma_capped_step(mvs@, Seq::empty(), Seq::empty());
        lemma_capped_add(mvs@ + drop_if(ok, pk, dst), Seq::empty());
    }
    if ok {
        let m: Move = Move::new_drop(pk, dst);
        mvs.push(m);
        assert(old(mvs)@.push(m) =~= old(mvs)@ + drop_if(ok, pk, dst));
    }
}

/// Adds the drops of COM on the empty square `dst`; `bb_pawn_drop` holds
/// the squares on which COM may drop a pawn.
pub fn generate_moves_com_drop(pos: &Position, dst: Square, bb_pawn_drop: Bitboard, mvs: &mut MoveArray)
    requires
        dst.on_board(),
        pos.side_to_move == Side::Com,
        forall|q: int| 0 <= q < 81 ==> bb_pawn_drop.has(q) == com_pawn_ok(pos.board@, q),
    ensures
        final(mvs)@ == capped(old(mvs)@ + com_drops(pos.board@, pos.hands.of(Side::Com), dst)),
{
    let us: Side = pos.side_to_move();
    let hand: Hand = pos.hand(us);
    let ghost b = pos.board@;
    let ghost start = mvs@;
    let _held: usize = mvs.len();
    let ok1: bool = hand.get(PieceKind::Pawn) > 0 && bb_pawn_drop.test_square(dst);
    let ok2: bool = hand.get(PieceKind::Lance) > 0 && dst.row().inner() != 8;
    let ok3: bool = hand.get(PieceKind::Knight) > 0 && dst.row().inner() <= 6;
    let ok4: bool = hand.get(PieceKind::Silver) > 0;
    let ok5: bool = hand.get(PieceKind::Gold) > 0;
    let ok6: bool = hand.get(PieceKind::Bishop) > 0;
    let ok7: bool = hand.get(PieceKind::Rook) > 0;
    let ghost d1 = drop_if(ok1, PieceKind::Pawn, dst);
    let ghost d2 = drop_if(ok2, PieceKind::Lance, dst);
    let ghost d3 = drop_if(ok3, PieceKind::Knight, dst);
    let ghost d4 = drop_if(ok4, PieceKind::Silver, dst);
    let ghost d5 = drop_if(ok5, PieceKind::Gold, dst);
    let ghost d6 = drop_if(ok6, PieceKind::Bishop, dst);
    let ghost d7 = drop_if(ok7, PieceKind::Rook, dst);
    push_drop_if(ok1, PieceKind::Pawn, dst, mvs);
    push_drop_if(ok2, PieceKind::Lance, dst, mvs);
    proof {
        lemma_capped_step(start, d1, d2);
    }
    push_drop_if(ok3, PieceKind::Knight, dst, mvs);
    proof {
        lemma_capped_step(start, d1 + d2, d3);
    }
    push_drop_if(ok4, PieceKind::Silver, dst, mvs);
    proof {
        lemma_capped_step(start, d1 + d2 + d3, d4);
    }
    push_drop_if(ok5, PieceKind::Gold, dst, mvs);
    proof {
        lemma_capped_step(start, d1 + d2 + d3 + d4, d5);
    }
    push_drop_if(ok6, PieceKind::Bishop, dst, mvs);
    proof {
        lemma_capped_step(start, d1 + d2 + d3 + d4 + d5, d6);
    }
    push_drop_if(ok7, PieceKind::Rook, dst, mvs);
    proof {
        lemma_capped_step(start, d1 + d2 + d3 + d4 + d5 + d6, d7);
    }
}

/// All moves of COM in the order of the console, as far as 600 moves go.
/// The moves obey how the pieces move and never land on a piece of COM;
/// nothing else is checked, so a move may leave COM's king attacked.
pub fn generate_moves_com(pos: &Position) -> (mvs: MoveArray)
    requires
        pos.bb_ok(),
        pos.side_to_move == Side::Com,
    ensures
        mvs@ == capped(com_moves(pos.board@, pos.hands.of(Side::Com))),
{
    let ghost b = pos.board@;
    let ghost hand = pos.hands.of(Side::Com);
    let pawns: Bitboard = pos.bb_piece(Side::Com, PieceKind::Pawn);
    let bb_pawn_drop: Bitboard = pawn_drop_mask(Side::Com, pawns);
    proof {
        assert forall|q: int| 0 <= q < 81 implies bb_pawn_drop.has(q) == com_pawn_ok(b, q) by {
            if com_pawn_ok(b, q) {
                assert forall|t: int| 0 <= t < 81 && t / 9 == q / 9 implies !pawns.has(t) by {}
            }
            if bb_pawn_drop.has(q) {
                assert forall|t: int| 0 <= t < 81 && t / 9 == q / 9 implies b[t] != Piece::CPawn by {
                    assert(!pawns.has(t));
                }
            }
        }
    }
    let mut mvs: MoveArray = MoveArray::new();
    let sqs: Vec<Square> = naitou_squares();
    let mut n: usize = 0;
    proof {
        assert(com_moves_upto(b, hand, 0) =~= Seq::<Move>::empty());
    }
    while n < 81
        invariant
            n <= 81,
            sqs@.len() == 81,
            forall|k: int| 0 <= k < 81 ==> #[trigger] sqs@[k] == scan_square(k) && sqs@[k].on_board(),
            b == pos.board@,
            hand == pos.hands.of(Side::Com),
            pos.side_to_move == Side::Com,
            forall|q: int| 0 <= q < 81 ==> bb_pawn_drop.has(q) == com_pawn_ok(b, q),
            mvs@ == capped(com_moves_upto(b, hand, n as int)),
        decreases 81 - n,
    {
        let sq: Square = sqs[n];
        let pc: Piece = pos.board().get(sq);
        let ghost sofar = com_moves_upto(b, hand, n as int);
        proof {
            lemma_capped_add(sofar, com_square_moves(b, hand, sq));
            assert(sofar + Seq::<Move>::empty() =~= sofar);
        }
        if !pc.is_piece() {
            generate_moves_com_drop(pos, sq, bb_pawn_drop, &mut mvs);
        } else if pc.side() == Side::Com {
            generate_moves_com_walk(pos, sq, pc.kind(), &mut mvs);
        }
        n += 1;
    }
    mvs
}

/// No ray stays on its square.
pub proof fn lemma_ranged_nonzero(pk: PieceKind, j: int)
    requires
        0 <= j < ranged_deltas(pk).len(),
    ensures
        ranged_deltas(pk)[j].0 != 0 || ranged_deltas(pk)[j].1 != 0,
{
}

/// No step or jump stays on its square.
pub proof fn lemma_melee_nonzero(pk: PieceKind, j: int)
    requires
        0 <= j < melee_deltas(pk).len(),
    ensures
        melee_deltas(pk)[j].0 != 0 || melee_deltas(pk)[j].1 != 0,
{
}

} // verus!
