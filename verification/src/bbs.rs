//! The squares that pieces attack, as sets of squares.
//!
//! An attack is a single step to a neighbouring square, a knight's jump, or
//! a slide along a ray that ends on the first occupied square.

use vstd::prelude::*;
use crate::shogi::{Side, Col, Row, Square};
use crate::direction::{Direction, SquareWithWall};
use crate::piece::{Piece, PieceKind};
use crate::bitboard::Bitboard;

verus! {

/// Whether file index `c` and rank index `r` lie on the board.
pub open spec fn inb(c: int, r: int) -> bool {
    0 <= c <= 8 && 0 <= r <= 8
}

/// Whether square `q` is reached from file `c`, rank `r` by at most `n`
/// steps in direction `d`, none of the squares before `q` being in `occ`.
pub open spec fn ray_reach(occ: Bitboard, c: int, r: int, d: Direction, q: int, n: nat) -> bool
    decreases n,
{
    if n == 0 {
        false
    } else {
        let c1 = c + d.dc();
        let r1 = r + d.dr();
        inb(c1, r1) && (q == 9 * c1 + r1 || (!occ.has(9 * c1 + r1) && ray_reach(
            occ,
            c1,
            r1,
            d,
            q,
            (n - 1) as nat,
        )))
    }
}

/// Whether a slide from `src` in direction `d` attacks `q`.
pub open spec fn slide_hits(occ: Bitboard, src: Square, d: Direction, q: int) -> bool {
    ray_reach(occ, src.c(), src.r(), d, q, 8)
}

/// Whether `q` is the square `dc` files to the left of and `dr` ranks below
/// `src`.
pub open spec fn offset_hits(src: Square, dc: int, dr: int, q: int) -> bool {
    inb(src.c() + dc, src.r() + dr) && q == 9 * (src.c() + dc) + src.r() + dr
}

/// Whether `pc` on `src` attacks `q` by a single step.
pub open spec fn melee_hits(pc: Piece, src: Square, q: int) -> bool {
    exists|d: Direction| pc.steps(d) && #[trigger] offset_hits(src, d.dc(), d.dr(), q)
}

/// Whether `pc` on `src` attacks `q` by a knight's jump.
pub open spec fn jump_hits(pc: Piece, src: Square, q: int) -> bool {
    pc.spec_kind() == PieceKind::Knight && (offset_hits(
        src,
        1,
        2 * Piece::forward(pc.spec_side()).dr(),
        q,
    ) || offset_hits(src, -1, 2 * Piece::forward(pc.spec_side()).dr(), q))
}

/// Whether `pc` on `src` attacks `q` along a ray, `occ` being the occupied
/// squares.
pub open spec fn ranged_hits(pc: Piece, src: Square, occ: Bitboard, q: int) -> bool {
    exists|d: Direction| pc.slides(d) && #[trigger] slide_hits(occ, src, d, q)
}

/// Whether `pc` on `src` attacks `q`, `occ` being the occupied squares.
pub open spec fn attacks(pc: Piece, src: Square, occ: Bitboard, q: int) -> bool {
    melee_hits(pc, src, q) || jump_hits(pc, src, q) || ranged_hits(pc, src, occ, q)
}

/// The square `dc` files to the left of and `dr` ranks below `sq`, if it is
/// on the board.
pub fn offset_square(sq: Square, dc: i32, dr: i32) -> (r: Option<Square>)
    requires
        sq.on_board(),
        -2 <= dc <= 2,
        -2 <= dr <= 2,
    ensures
        r.is_some() == inb(sq.c() + dc, sq.r() + dr),
        r.is_some() ==> r.unwrap() == Square::at(sq.c() + dc, sq.r() + dr) && r.unwrap().on_board()
            && r.unwrap().c() == sq.c() + dc && r.unwrap().r() == sq.r() + dr,
{
    let delta: i32 = dc * SquareWithWall::DIR_L + dr * SquareWithWall::DIR_D;
    let w: SquareWithWall = SquareWithWall::from_square(sq).add_delta(delta);
    assert(w.is_at(sq.c() + dc, sq.r() + dr));
    if w.is_on_board() {
        Some(w.to_square())
    } else {
        None
    }
}

/// The neighbour of `sq` in direction `d`, if it is on the board.
pub fn step_square(sq: Square, d: Direction) -> (r: Option<Square>)
    requires
        sq.on_board(),
    ensures
        r.is_some() == inb(sq.c() + d.dc(), sq.r() + d.dr()),
        r.is_some() ==> r.unwrap() == Square::at(sq.c() + d.dc(), sq.r() + d.dr())
            && r.unwrap().on_board() && r.unwrap().c() == sq.c() + d.dc() && r.unwrap().r()
            == sq.r() + d.dr(),
{
    let w: SquareWithWall = SquareWithWall::from_square(sq).add_delta(d.to_sqww_delta());
    assert(w.is_at(sq.c() + d.dc(), sq.r() + d.dr()));
    if w.is_on_board() {
        Some(w.to_square())
    } else {
        None
    }
}

/// The squares that a slide from `sq` in direction `d` attacks.
pub fn slide_effect(sq: Square, d: Direction, occ: Bitboard) -> (r: Bitboard)
    requires
        sq.on_board(),
    ensures
        r.spec_is_valid(),
        forall|q: int| r.has(q) == slide_hits(occ, sq, d, q),
{
    let mut bb: Bitboard = Bitboard::zero();
    let mut cur: Square = sq;
    let mut n: u32 = 0;
    let mut go: bool = true;
    while go && n < 8
        invariant
            cur.on_board(),
            n <= 8,
            bb.spec_is_valid(),
            forall|q: int|
                slide_hits(occ, sq, d, q) == (bb.has(q) || (go && ray_reach(
                    occ,
                    cur.c(),
                    cur.r(),
                    d,
                    q,
                    (8 - n) as nat,
                ))),
        decreases (if go { 1int } else { 0int }), 8 - n,
    {
        let ghost cur0 = cur;
        let ghost bb0 = bb;
        proof {
            assert forall|q: int|
                #[trigger] ray_reach(occ, cur0.c(), cur0.r(), d, q, (8 - n) as nat) == ({
                    let c1 = cur0.c() + d.dc();
                    let r1 = cur0.r() + d.dr();
                    inb(c1, r1) && (q == 9 * c1 + r1 || (!occ.has(9 * c1 + r1) && ray_reach(
                        occ,
                        c1,
                        r1,
                        d,
                        q,
                        (8 - n - 1) as nat,
                    )))
                }) by {}
        }
        match step_square(cur, d) {
            None => {
                go = false;
            },
            Some(nx) => {
                bb = bb.or(Bitboard::from_square(nx));
                if occ.test_square(nx) {
                    go = false;
                } else {
                    cur = nx;
                    n = n + 1;
                }
            },
        }
    }
    bb
}

/// The set that holds only `sq`.
pub fn square(sq: Square) -> (r: Bitboard)
    requires
        sq.on_board(),
    ensures
        r == Bitboard::single(sq),
        r.spec_is_valid(),
        forall|i: int| r.has(i) == (i == sq.0),
{
    Bitboard::from_square(sq)
}

/// The squares of file `col`.
pub fn col(c: Col) -> (r: Bitboard)
    requires
        c.on_board(),
    ensures
        r.spec_is_valid(),
        forall|q: int| r.has(q) == (0 <= q < 81 && q / 9 == c.0),
{
    let mut bb: Bitboard = Bitboard::zero();
    let mut i: i32 = 0;
    while i < 9
        invariant
            0 <= i <= 9,
            c.on_board(),
            bb.spec_is_valid(),
            forall|q: int| bb.has(q) == (0 <= q < 81 && q / 9 == c.0 && q % 9 < i),
        decreases 9 - i,
    {
        bb = bb.or(Bitboard::from_square(Square(9 * c.0 + i)));
        i += 1;
    }
    bb
}

/// The squares of rank `row`.
pub fn row(rw: Row) -> (r: Bitboard)
    requires
        rw.on_board(),
    ensures
        r.spec_is_valid(),
        forall|q: int| r.has(q) == (0 <= q < 81 && q % 9 == rw.0),
{
    let mut bb: Bitboard = Bitboard::zero();
    let mut i: i32 = 0;
    while i < 9
        invariant
            0 <= i <= 9,
            rw.on_board(),
            bb.spec_is_valid(),
            forall|q: int| bb.has(q) == (0 <= q < 81 && q % 9 == rw.0 && q / 9 < i),
        decreases 9 - i,
    {
        bb = bb.or(Bitboard::from_square(Square(9 * i + rw.0)));
        i += 1;
    }
    bb
}

/// The squares on the ranks that lie strictly ahead of `row`, seen from
/// `side`: above it for HUM, below it for COM.
pub fn forward_rows(side: Side, rw: Row) -> (r: Bitboard)
    requires
        rw.on_board(),
    ensures
        r.spec_is_valid(),
        forall|q: int|
            r.has(q) == (0 <= q < 81 && match side {
                Side::Hum => q % 9 < rw.0,
                Side::Com => q % 9 > rw.0,
            }),
{
    let mut bb: Bitboard = Bitboard::zero();
    let mut i: i32 = 0;
    while i < 9
        invariant
            0 <= i <= 9,
            rw.on_board(),
            bb.spec_is_valid(),
            forall|q: int|
                bb.has(q) == (0 <= q < 81 && q % 9 < i && match side {
                    Side::Hum => q % 9 < rw.0,
                    Side::Com => q % 9 > rw.0,
                }),
        decreases 9 - i,
    {
        let ahead: bool = match side {
            Side::Hum => i < rw.0,
            Side::Com => i > rw.0,
        };
        if ahead {
            bb = bb.or(self::row(Row(i)));
        }
        i += 1;
    }
    bb
}

/// The promotion zone of `side`: ranks 1 to 3 for HUM, 7 to 9 for COM.
pub fn promotion_zone(side: Side) -> (r: Bitboard)
    ensures
        r.spec_is_valid(),
        forall|q: int| r.has(q) == (0 <= q < 81 && Row((q % 9) as i32).in_promotion_zone(side)),
{
    match side {
        Side::Hum => forward_rows(Side::Hum, Row(3)),
        Side::Com => forward_rows(Side::Com, Row(5)),
    }
}

/// The squares that `pc` on `sq` attacks by a single step or a knight's
/// jump.
pub fn effect_melee(pc: Piece, sq: Square) -> (r: Bitboard)
    requires
        sq.on_board(),
        pc.is_piece(),
    ensures
        r.spec_is_valid(),
        forall|q: int| r.has(q) == (melee_hits(pc, sq, q) || jump_hits(pc, sq, q)),
{
    let mut bb: Bitboard = Bitboard::zero();
    let mut i: u32 = 0;
    while i < 8
        invariant
            i <= 8,
            sq.on_board(),
            bb.spec_is_valid(),
            forall|q: int|
                bb.has(q) == (exists|d: Direction|
                    d.index() < i && pc.steps(d) && #[trigger] offset_hits(sq, d.dc(), d.dr(), q)),
        decreases 8 - i,
    {
        let d: Direction = Direction::from_inner(i);
        let ghost prev = bb;
        if pc.steps_in(d) {
            match step_square(sq, d) {
                Some(t) => {
                    bb = bb.or(Bitboard::from_square(t));
                },
                None => {},
            }
        }
        proof {
            assert forall|q: int|
                bb.has(q) == (exists|e: Direction|
                    e.index() < i + 1 && pc.steps(e) && #[trigger] offset_hits(
                        sq,
                        e.dc(),
                        e.dr(),
                        q,
                    )) by {
                let now = pc.steps(d) && offset_hits(sq, d.dc(), d.dr(), q);
                assert(bb.has(q) == (prev.has(q) || now));
                if prev.has(q) {
                    let e = choose|e: Direction|
                        e.index() < i && pc.steps(e) && #[trigger] offset_hits(
                            sq,
                            e.dc(),
                            e.dr(),
                            q,
                        );
                    assert(e.index() < i + 1 && pc.steps(e) && offset_hits(sq, e.dc(), e.dr(), q));
                }
                if now {
                    assert(d.index() < i + 1 && pc.steps(d) && offset_hits(sq, d.dc(), d.dr(), q));
                }
                if exists|e: Direction|
                    e.index() < i + 1 && pc.steps(e) && #[trigger] offset_hits(
                        sq,
                        e.dc(),
                        e.dr(),
                        q,
                    ) {
                    let e = choose|e: Direction|
                        e.index() < i + 1 && pc.steps(e) && #[trigger] offset_hits(
                            sq,
                            e.dc(),
                            e.dr(),
                            q,
                        );
                    if e.index() < i {
                        assert(prev.has(q));
                    } else {
                        assert(e == d);
                    }
                }
            }
        }
        i += 1;
    }
    proof {
        assert forall|q: int| bb.has(q) == melee_hits(pc, sq, q) by {
            if melee_hits(pc, sq, q) {
                let e = choose|e: Direction| pc.steps(e) && #[trigger] offset_hits(sq, e.dc(), e.dr(), q);
                assert(e.index() < 8);
            }
        }
    }
    if pc.kind().inner() == 3 {
        let fwd: i32 = match pc.side() {
            Side::Hum => -2,
            Side::Com => 2,
        };
        match offset_square(sq, 1, fwd) {
            Some(t) => {
                bb = bb.or(Bitboard::from_square(t));
            },
            None => {},
        }
        match offset_square(sq, -1, fwd) {
            Some(t) => {
                bb = bb.or(Bitboard::from_square(t));
            },
            None => {},
        }
    }
    bb
}

/// The squares that `pc` on `sq` attacks along its rays, `occ` being the
/// occupied squares.
pub fn effect_ranged(pc: Piece, sq: Square, occ: Bitboard) -> (r: Bitboard)
    requires
        sq.on_board(),
        pc.is_piece(),
    ensures
        r.spec_is_valid(),
        forall|q: int| r.has(q) == ranged_hits(pc, sq, occ, q),
{
    let mut bb: Bitboard = Bitboard::zero();
    let mut i: u32 = 0;
    while i < 8
        invariant
            i <= 8,
            sq.on_board(),
            bb.spec_is_valid(),
            forall|q: int|
                bb.has(q) == (exists|d: Direction|
                    d.index() < i && pc.slides(d) && #[trigger] slide_hits(occ, sq, d, q)),
        decreases 8 - i,
    {
        let d: Direction = Direction::from_inner(i);
        let ghost prev = bb;
        if pc.slides_in(d) {
            bb = bb.or(slide_effect(sq, d, occ));
        }
        proof {
            assert forall|q: int|
                bb.has(q) == (exists|e: Direction|
                    e.index() < i + 1 && pc.slides(e) && #[trigger] slide_hits(occ, sq, e, q)) by {
                let now = pc.slides(d) && slide_hits(occ, sq, d, q);
                assert(bb.has(q) == (prev.has(q) || now));
                if prev.has(q) {
                    let e = choose|e: Direction|
                        e.index() < i && pc.slides(e) && #[trigger] slide_hits(occ, sq, e, q);
                    assert(e.index() < i + 1 && pc.slides(e) && slide_hits(occ, sq, e, q));
                }
                if now {
                    assert(d.index() < i + 1 && pc.slides(d) && slide_hits(occ, sq, d, q));
                }
                if exists|e: Direction|
                    e.index() < i + 1 && pc.slides(e) && #[trigger] slide_hits(occ, sq, e, q) {
                    let e = choose|e: Direction|
                        e.index() < i + 1 && pc.slides(e) && #[trigger] slide_hits(occ, sq, e, q);
                    if e.index() < i {
                        assert(prev.has(q));
                    } else {
                        assert(e == d);
                    }
                }
            }
        }
        i += 1;
    }
    proof {
        assert forall|q: int| bb.has(q) == ranged_hits(pc, sq, occ, q) by {
            if ranged_hits(pc, sq, occ, q) {
                let e = choose|e: Direction| pc.slides(e) && #[trigger] slide_hits(occ, sq, e, q);
                assert(e.index() < 8);
            }
        }
    }
    bb
}

/// The squares that `pc` on `sq` attacks, `occ` being the occupied squares.
pub fn effect(pc: Piece, sq: Square, occ: Bitboard) -> (r: Bitboard)
    requires
        sq.on_board(),
        pc.is_piece(),
    ensures
        r.spec_is_valid(),
        forall|q: int| r.has(q) == attacks(pc, sq, occ, q),
{
    effect_melee(pc, sq).or(effect_ranged(pc, sq, occ))
}

/// The square that a pawn of `side` on `sq` attacks.
pub fn pawn_effect(side: Side, sq: Square) -> (r: Bitboard)
    requires
        sq.on_board(),
    ensures
        r.spec_is_valid(),
        forall|q: int| r.has(q) == melee_hits(Piece::of(side, PieceKind::Pawn), sq, q),
{
    effect_melee(Piece::new(side, PieceKind::Pawn), sq)
}

/// The squares that a lance of `side` on `sq` attacks on an empty board.
pub fn lance_step_effect(side: Side, sq: Square) -> (r: Bitboard)
    requires
        sq.on_board(),
    ensures
        r.spec_is_valid(),
        forall|q: int|
            r.has(q) == ranged_hits(
                Piece::of(side, PieceKind::Lance),
                sq,
                Bitboard { lo: 0, hi: 0 },
                q,
            ),
{
    effect_ranged(Piece::new(side, PieceKind::Lance), sq, Bitboard::zero())
}

/// The squares that a lance of `side` on `sq` attacks.
pub fn lance_effect(side: Side, sq: Square, occ: Bitboard) -> (r: Bitboard)
    requires
        sq.on_board(),
    ensures
        r.spec_is_valid(),
        forall|q: int| r.has(q) == ranged_hits(Piece::of(side, PieceKind::Lance), sq, occ, q),
{
    match side {
        Side::Hum => lance_effect_hum(sq, occ),
        Side::Com => lance_effect_com(sq, occ),
    }
}

/// The squares that a lance of HUM on `sq` attacks.
pub fn lance_effect_hum(sq: Square, occ: Bitboard) -> (r: Bitboard)
    requires
        sq.on_board(),
    ensures
        r.spec_is_valid(),
        forall|q: int| r.has(q) == ranged_hits(Piece::HLance, sq, occ, q),
{
    effect_ranged(Piece::HLance, sq, occ)
}

/// The squares that a lance of COM on `sq` attacks.
pub fn lance_effect_com(sq: Square, occ: Bitboard) -> (r: Bitboard)
    requires
        sq.on_board(),
    ensures
        r.spec_is_valid(),
        forall|q: int| r.has(q) == ranged_hits(Piece::CLance, sq, occ, q),
{
    effect_ranged(Piece::CLance, sq, occ)
}

/// The squares that a rook on `sq` attacks.
pub fn rook_effect(sq: Square, occ: Bitboard) -> (r: Bitboard)
    requires
        sq.on_board(),
    ensures
        r.spec_is_valid(),
        forall|q: int| r.has(q) == ranged_hits(Piece::HRook, sq, occ, q),
{
    let a: Bitboard = rook_col_effect(sq, occ);
    let b: Bitboard = rook_row_effect(sq, occ);
    proof {
        assert forall|q: int| (a.has(q) || b.has(q)) == ranged_hits(Piece::HRook, sq, occ, q) by {
            if ranged_hits(Piece::HRook, sq, occ, q) {
                let d = choose|d: Direction| Piece::HRook.slides(d) && #[trigger] slide_hits(occ, sq, d, q);
                assert(d == Direction::U || d == Direction::D || d == Direction::L || d == Direction::R);
            }
            if slide_hits(occ, sq, Direction::U, q) {
                assert(Piece::HRook.slides(Direction::U));
            }
            if slide_hits(occ, sq, Direction::D, q) {
                assert(Piece::HRook.slides(Direction::D));
            }
            if slide_hits(occ, sq, Direction::L, q) {
                assert(Piece::HRook.slides(Direction::L));
            }
            if slide_hits(occ, sq, Direction::R, q) {
                assert(Piece::HRook.slides(Direction::R));
            }
        }
    }
    a.or(b)
}

/// The squares that a rook on `sq` attacks along its file.
pub fn rook_col_effect(sq: Square, occ: Bitboard) -> (r: Bitboard)
    requires
        sq.on_board(),
    ensures
        r.spec_is_valid(),
        forall|q: int|
            r.has(q) == (slide_hits(occ, sq, Direction::U, q) || slide_hits(
                occ,
                sq,
                Direction::D,
                q,
            )),
{
    slide_effect(sq, Direction::U, occ).or(slide_effect(sq, Direction::D, occ))
}

/// The squares that a rook on `sq` attacks along its rank.
pub fn rook_row_effect(sq: Square, occ: Bitboard) -> (r: Bitboard)
    requires
        sq.on_board(),
    ensures
        r.spec_is_valid(),
        forall|q: int|
            r.has(q) == (slide_hits(occ, sq, Direction::L, q) || slide_hits(
                occ,
                sq,
                Direction::R,
                q,
            )),
{
    slide_effect(sq, Direction::L, occ).or(slide_effect(sq, Direction::R, occ))
}

/// The squares that a bishop on `sq` attacks.
pub fn bishop_effect(sq: Square, occ: Bitboard) -> (r: Bitboard)
    requires
        sq.on_board(),
    ensures
        r.spec_is_valid(),
        forall|q: int| r.has(q) == ranged_hits(Piece::HBishop, sq, occ, q),
{
    effect_ranged(Piece::HBishop, sq, occ)
}

/// The neighbours of `sq`, which a king on it attacks.
pub fn king_effect(sq: Square) -> (r: Bitboard)
    requires
        sq.on_board(),
    ensures
        r.spec_is_valid(),
        forall|q: int| r.has(q) == melee_hits(Piece::HKing, sq, q),
{
    effect_melee(Piece::HKing, sq)
}

/// The squares that a rook on `sq` attacks on an empty board.
pub fn rook_step_effect(sq: Square) -> (r: Bitboard)
    requires
        sq.on_board(),
    ensures
        r.spec_is_valid(),
        forall|q: int| r.has(q) == ranged_hits(Piece::HRook, sq, Bitboard { lo: 0, hi: 0 }, q),
{
    rook_effect(sq, Bitboard::zero())
}

/// The squares that a bishop on `sq` attacks on an empty board.
pub fn bishop_step_effect(sq: Square) -> (r: Bitboard)
    requires
        sq.on_board(),
    ensures
        r.spec_is_valid(),
        forall|q: int| r.has(q) == ranged_hits(Piece::HBishop, sq, Bitboard { lo: 0, hi: 0 }, q),
{
    bishop_effect(sq, Bitboard::zero())
}

/// The squares that a gold of `side` on `sq` attacks.
pub fn gold_effect(side: Side, sq: Square) -> (r: Bitboard)
    requires
        sq.on_board(),
    ensures
        r.spec_is_valid(),
        forall|q: int| r.has(q) == melee_hits(Piece::of(side, PieceKind::Gold), sq, q),
{
    effect_melee(Piece::new(side, PieceKind::Gold), sq)
}

/// The squares that a silver of `side` on `sq` attacks.
pub fn silver_effect(side: Side, sq: Square) -> (r: Bitboard)
    requires
        sq.on_board(),
    ensures
        r.spec_is_valid(),
        forall|q: int| r.has(q) == melee_hits(Piece::of(side, PieceKind::Silver), sq, q),
{
    effect_melee(Piece::new(side, PieceKind::Silver), sq)
}

/// The squares that a knight of `side` on `sq` attacks.
pub fn knight_effect(side: Side, sq: Square) -> (r: Bitboard)
    requires
        sq.on_board(),
    ensures
        r.spec_is_valid(),
        forall|q: int| r.has(q) == jump_hits(Piece::of(side, PieceKind::Knight), sq, q),
{
    effect_melee(Piece::new(side, PieceKind::Knight), sq)
}

/// The squares that a dragon on `sq` attacks: those of a rook and those of
/// a king.
pub fn dragon_effect(sq: Square, occ: Bitboard) -> (r: Bitboard)
    requires
        sq.on_board(),
    ensures
        r.spec_is_valid(),
        forall|q: int|
            r.has(q) == (ranged_hits(Piece::HRook, sq, occ, q) || melee_hits(Piece::HKing, sq, q)),
{
    rook_effect(sq, occ).or(king_effect(sq))
}

/// The squares that a horse on `sq` attacks: those of a bishop and those of
/// a king.
pub fn horse_effect(sq: Square, occ: Bitboard) -> (r: Bitboard)
    requires
        sq.on_board(),
    ensures
        r.spec_is_valid(),
        forall|q: int|
            r.has(q) == (ranged_hits(Piece::HBishop, sq, occ, q) || melee_hits(Piece::HKing, sq, q)),
{
    bishop_effect(sq, occ).or(king_effect(sq))
}

/// The four neighbours of `sq` on its file and rank.
pub fn axis_cross_effect(sq: Square) -> (r: Bitboard)
    requires
        sq.on_board(),
    ensures
        r.spec_is_valid(),
        forall|q: int| r.has(q) == melee_hits(Piece::HHorse, sq, q),
{
    effect_melee(Piece::HHorse, sq)
}

/// The four diagonal neighbours of `sq`.
pub fn diagonal_cross_effect(sq: Square) -> (r: Bitboard)
    requires
        sq.on_board(),
    ensures
        r.spec_is_valid(),
        forall|q: int| r.has(q) == melee_hits(Piece::HDragon, sq, q),
{
    effect_melee(Piece::HDragon, sq)
}

/// The squares that a bishop or a rook on `sq` attacks.
pub fn queen_effect(sq: Square, occ: Bitboard) -> (r: Bitboard)
    requires
        sq.on_board(),
    ensures
        r.spec_is_valid(),
        forall|q: int|
            r.has(q) == (ranged_hits(Piece::HBishop, sq, occ, q) || ranged_hits(
                Piece::HRook,
                sq,
                occ,
                q,
            )),
{
    bishop_effect(sq, occ).or(rook_effect(sq, occ))
}

/// The squares one step ahead of the squares of `bb`, seen from `side`, the
/// step taken within the word: the square after the last rank of a file is
/// the first rank of the next file.
pub fn pawn_bb_effect(side: Side, bb: Bitboard) -> (r: Bitboard)
    requires
        bb.spec_is_valid(),
    ensures
        side == Side::Hum ==> r.lo == bb.lo >> 1 && r.hi == bb.hi >> 1 && r.spec_is_valid(),
        side == Side::Com ==> r.lo == bb.lo << 1 && r.hi == bb.hi << 1,
        forall|q: int|
            0 <= q < 81 ==> r.has(q) == (match side {
                Side::Hum => q != 62 && q != 80 && bb.has(q + 1),
                Side::Com => q != 0 && q != 63 && bb.has(q - 1),
            }),
{
    proof {
        crate::bitboard::lemma_bit64_ops(bb.lo, bb.lo);
        crate::bitboard::lemma_bit64_ops(bb.hi, bb.hi);
        crate::bitboard::lemma_bit64_bounds(0, bb.lo, 0x8000_0000_0000_0000);
        crate::bitboard::lemma_bit64_bounds(0, bb.hi, 0x40000);
        crate::bitboard::lemma_bit64_high(bb.lo, bb.hi);
    }
    match side {
        Side::Hum => bb.logical_shift_right_parts::<1>(),
        Side::Com => bb.logical_shift_left_parts::<1>(),
    }
}

/// The squares on which `side` may drop a pawn, `pawns` being the pawns of
/// `side`: the squares of the files that hold none of them, without the
/// last rank.
pub fn pawn_drop_mask(side: Side, pawns: Bitboard) -> (r: Bitboard)
    requires
        pawns.spec_is_valid(),
    ensures
        r.spec_is_valid(),
        forall|q: int|
            r.has(q) == (0 <= q < 81 && (forall|t: int| 0 <= t < 81 && t / 9 == q / 9 ==> !pawns.has(t))
                && match side {
                Side::Hum => q % 9 != 0,
                Side::Com => q % 9 != 8,
            }),
{
    let allowed: Bitboard = match side {
        Side::Hum => forward_rows(Side::Com, Row(0)),
        Side::Com => forward_rows(Side::Hum, Row(8)),
    };
    let mut bb: Bitboard = Bitboard::zero();
    let mut f: i32 = 0;
    while f < 9
        invariant
            0 <= f <= 9,
            pawns.spec_is_valid(),
            bb.spec_is_valid(),
            allowed.spec_is_valid(),
            forall|q: int|
                allowed.has(q) == (0 <= q < 81 && match side {
                    Side::Hum => q % 9 != 0,
                    Side::Com => q % 9 != 8,
                }),
            forall|q: int|
                bb.has(q) == (0 <= q < 81 && q / 9 < f && (forall|t: int|
                    0 <= t < 81 && t / 9 == q / 9 ==> !pawns.has(t)) && allowed.has(q)),
        decreases 9 - f,
    {
        let file: Bitboard = col(Col(f));
        let on_file: Bitboard = file.and(pawns);
        let ghost prev = bb;
        if on_file.is_zero() {
            bb = bb.or(file.and(allowed));
        }
        proof {
            assert forall|q: int|
                bb.has(q) == (0 <= q < 81 && q / 9 < f + 1 && (forall|t: int|
                    0 <= t < 81 && t / 9 == q / 9 ==> !pawns.has(t)) && allowed.has(q)) by {
                if 0 <= q < 81 && q / 9 == f {
                    if forall|t: int| !on_file.has(t) {
                        assert forall|t: int| 0 <= t < 81 && t / 9 == q / 9 implies !pawns.has(t) by {
                            assert(!on_file.has(t));
                        }
                    } else {
                        let t = choose|t: int| on_file.has(t);
                        assert(pawns.has(t) && file.has(t));
                    }
                }
            }
        }
        f += 1;
    }
    bb
}

/// The squares at distance 2 or less from `sq`, `sq` itself too.
pub fn around25(sq: Square) -> (r: Bitboard)
    requires
        sq.on_board(),
    ensures
        r.spec_is_valid(),
        forall|q: int| r.has(q) == (0 <= q < 81 && sq.dist(Square(q as i32)) <= 2),
{
    let mut bb: Bitboard = Bitboard::zero();
    let mut dc: i32 = -2;
    while dc <= 2
        invariant
            -2 <= dc <= 3,
            sq.on_board(),
            bb.spec_is_valid(),
            forall|q: int|
                bb.has(q) == (0 <= q < 81 && sq.dist(Square(q as i32)) <= 2 && q / 9 - sq.c() < dc),
        decreases 3 - dc,
    {
        let mut dr: i32 = -2;
        while dr <= 2
            invariant
                -2 <= dc <= 2,
                -2 <= dr <= 3,
                sq.on_board(),
                bb.spec_is_valid(),
                forall|q: int|
                    bb.has(q) == (0 <= q < 81 && sq.dist(Square(q as i32)) <= 2 && (q / 9 - sq.c()
                        < dc || (q / 9 - sq.c() == dc && q % 9 - sq.r() < dr))),
            decreases 3 - dr,
        {
            match offset_square(sq, dc, dr) {
                Some(t) => {
                    bb = bb.or(Bitboard::from_square(t));
                },
                None => {},
            }
            dr += 1;
        }
        dc += 1;
    }
    bb
}

} // verus!
