//! How often each side attacks each square of a board.
//!
//! The count of a side on a square holds one for every piece of the side
//! that attacks the square by a step or a jump, one for every piece of the
//! side whose ray reaches the square, and one more for every such ray that
//! ends on the neighbouring square on a piece of the same side which itself
//! attacks in the direction of the ray (a "shadow": the ray is carried one
//! square further).

use vstd::prelude::*;
use crate::shogi::{Side, Square};
use crate::direction::{Direction, DirectionSet, lemma_byte_bits, lemma_direction_set_single};
use crate::piece::{Piece, PieceKind};
use crate::board::Board;
use crate::bbs::{inb, step_square, offset_square};
use crate::effect::DirectionSetPair;

verus! {

/// The first occupied square that is met when walking from file `c`, rank
/// `r` in direction `d` for at most `n` steps, or -1 when there is none.
pub open spec fn look(board: Seq<Piece>, c: int, r: int, d: Direction, n: nat) -> int
    decreases n,
{
    if n == 0 {
        -1
    } else {
        let c1 = c + d.dc();
        let r1 = r + d.dr();
        if !inb(c1, r1) {
            -1
        } else if board[9 * c1 + r1] != Piece::NoPiece {
            9 * c1 + r1
        } else {
            look(board, c1, r1, d, (n - 1) as nat)
        }
    }
}

/// Whether a ray of `s` that travels in direction `d` reaches square `q`:
/// the first piece met when looking back from `q` is a piece of `s` that
/// slides in direction `d`.
pub open spec fn ray_onto(board: Seq<Piece>, s: Side, q: int, d: Direction) -> bool {
    let t = look(board, q / 9, q % 9, d.opp(), 8);
    t >= 0 && board[t].is_of(s) && board[t].slides(d)
}

/// Whether a piece of `s` attacks square `q` by a step in direction `d`.
pub open spec fn step_onto(board: Seq<Piece>, s: Side, q: int, d: Direction) -> bool {
    let c = q / 9 - d.dc();
    let r = q % 9 - d.dr();
    inb(c, r) && board[9 * c + r].is_of(s) && board[9 * c + r].steps(d)
}

/// Whether a ray of `s` in direction `d` is carried onto square `q` by the
/// piece of `s` that stands just before `q`.
pub open spec fn shadow_onto(board: Seq<Piece>, s: Side, q: int, d: Direction) -> bool {
    let c = q / 9 - d.dc();
    let r = q % 9 - d.dr();
    inb(c, r) && board[9 * c + r].is_of(s) && board[9 * c + r].supports(d) && ray_onto(
        board,
        s,
        9 * c + r,
        d,
    )
}

/// Whether a knight of `s` attacks square `q` from the file `dc` to the
/// left of it.
pub open spec fn jump_onto(board: Seq<Piece>, s: Side, q: int, dc: int) -> bool {
    let c = q / 9 + dc;
    let r = q % 9 - 2 * Piece::forward(s).dr();
    inb(c, r) && board[9 * c + r] == Piece::of(s, PieceKind::Knight)
}

/// 1 for true, 0 for false.
pub open spec fn b2i(b: bool) -> int {
    if b {
        1
    } else {
        0
    }
}

/// What direction `d` adds to the count of `s` on square `q`.
pub open spec fn dir_count(board: Seq<Piece>, s: Side, q: int, d: Direction) -> int {
    b2i(step_onto(board, s, q, d)) + b2i(ray_onto(board, s, q, d)) + b2i(
        shadow_onto(board, s, q, d),
    )
}

/// What the first `n` directions add to the count of `s` on square `q`.
pub open spec fn dir_sum(board: Seq<Piece>, s: Side, q: int, n: int) -> int
    decreases n,
{
    if n <= 0 {
        0
    } else {
        dir_sum(board, s, q, n - 1) + dir_count(board, s, q, Direction::of_index(n - 1))
    }
}

/// How often `s` attacks square `q`.
pub open spec fn attack_count(board: Seq<Piece>, s: Side, q: int) -> int {
    dir_sum(board, s, q, 8) + b2i(jump_onto(board, s, q, 1)) + b2i(jump_onto(board, s, q, -1))
}

/// The bits of the directions among the first `n` in which a ray of `s`
/// reaches square `q`.
pub open spec fn ray_bits(board: Seq<Piece>, s: Side, q: int, n: int) -> int
    decreases n,
{
    if n <= 0 {
        0
    } else {
        ray_bits(board, s, q, n - 1) + (if ray_onto(board, s, q, Direction::of_index(n - 1)) {
            Direction::of_index(n - 1).bit()
        } else {
            0
        })
    }
}

/// The directions in which rays of the two sides reach square `q`.
pub open spec fn ray_pair(board: Seq<Piece>, q: int) -> DirectionSetPair {
    DirectionSetPair(
        (ray_bits(board, Side::Hum, q, 8) + 256 * ray_bits(board, Side::Com, q, 8)) as u16,
    )
}

/// The bits of the first `n` directions stay below `2^n`, and say for each
/// direction whether a ray reaches the square.
pub proof fn lemma_ray_bits(board: Seq<Piece>, s: Side, q: int, n: int)
    requires
        0 <= n <= 8,
    ensures
        0 <= ray_bits(board, s, q, n) < vstd::arithmetic::power2::pow2(n as nat),
        forall|d: Direction|
            DirectionSet(ray_bits(board, s, q, n) as u8).has(d) == (d.index() < n && ray_onto(
                board,
                s,
                q,
                d,
            )),
    decreases n,
{
    vstd::arithmetic::power2::lemma2_to64();
    if n > 0 {
        lemma_ray_bits(board, s, q, n - 1);
        let a = ray_bits(board, s, q, n - 1);
        let e = Direction::of_index(n - 1);
        let b = ray_bits(board, s, q, n);
        vstd::arithmetic::power2::lemma_pow2_unfold(n as nat);
        lemma_byte_bits(a as u8);
        lemma_byte_bits(b as u8);
        assert(e.index() == n - 1);
        assert(e.bit() == vstd::arithmetic::power2::pow2((n - 1) as nat));
        assert forall|d: Direction|
            DirectionSet(b as u8).has(d) == (d.index() < n && ray_onto(board, s, q, d)) by {
            assert(DirectionSet(a as u8).has(d) == (d.index() < n - 1 && ray_onto(board, s, q, d)));
            if d.index() >= n {
                assert(b < d.bit()) by {
                    vstd::arithmetic::power2::lemma_pow2_strictly_increases(n as nat, (n + 1) as nat);
                }
            }
        }
    } else {
        lemma_direction_set_single(Direction::RU);
    }
}

/// A count is at most 26.
pub proof fn lemma_attack_count_bound(board: Seq<Piece>, s: Side, q: int)
    ensures
        0 <= attack_count(board, s, q) <= 26,
{
    assert(dir_sum(board, s, q, 0) == 0);
    assert(0 <= dir_sum(board, s, q, 1) <= 3);
    assert(0 <= dir_sum(board, s, q, 2) <= 6);
    assert(0 <= dir_sum(board, s, q, 3) <= 9);
    assert(0 <= dir_sum(board, s, q, 4) <= 12);
    assert(0 <= dir_sum(board, s, q, 5) <= 15);
    assert(0 <= dir_sum(board, s, q, 6) <= 18);
    assert(0 <= dir_sum(board, s, q, 7) <= 21);
    assert(0 <= dir_sum(board, s, q, 8) <= 24);
}

/// The first occupied square met when walking from `sq` in direction `d`.
pub fn look_from(board: &Board, sq: Square, d: Direction) -> (r: Option<Square>)
    requires
        sq.on_board(),
    ensures
        match r {
            Some(t) => t.on_board() && t.0 == look(board@, sq.c(), sq.r(), d, 8),
            None => look(board@, sq.c(), sq.r(), d, 8) == -1,
        },
{
    let mut cur: Square = sq;
    let mut n: u32 = 0;
    let mut found: Option<Square> = None;
    let mut go: bool = true;
    while go && n < 8
        invariant
            cur.on_board(),
            n <= 8,
            go ==> found.is_none() && look(board@, sq.c(), sq.r(), d, 8) == look(
                board@,
                cur.c(),
                cur.r(),
                d,
                (8 - n) as nat,
            ),
            !go ==> match found {
                Some(t) => t.on_board() && t.0 == look(board@, sq.c(), sq.r(), d, 8),
                None => look(board@, sq.c(), sq.r(), d, 8) == -1,
            },
        decreases (if go { 1int } else { 0int }), 8 - n,
    {
        match step_square(cur, d) {
            None => {
                go = false;
            },
            Some(nx) => {
                if board.get(nx).is_piece() {
                    found = Some(nx);
                    go = false;
                } else {
                    cur = nx;
                    n = n + 1;
                }
            },
        }
    }
    found
}

/// What one direction adds to the counts of the two sides on `q`, and
/// whether a ray of each side reaches `q` in that direction.
pub fn count_direction(board: &Board, q: Square, d: Direction) -> (r: (u8, u8, bool, bool))
    requires
        q.on_board(),
    ensures
        r.0 == dir_count(board@, Side::Hum, q.0 as int, d),
        r.1 == dir_count(board@, Side::Com, q.0 as int, d),
        r.2 == ray_onto(board@, Side::Hum, q.0 as int, d),
        r.3 == ray_onto(board@, Side::Com, q.0 as int, d),
{
    let back: Direction = d.inv();
    let mut hum: u8 = 0;
    let mut com: u8 = 0;
    let mut ray_hum: bool = false;
    let mut ray_com: bool = false;
    match look_from(board, q, back) {
        Some(t) => {
            let pt: Piece = board.get(t);
            if pt.slides_in(d) {
                match pt.side() {
                    Side::Hum => {
                        hum = hum + 1;
                        ray_hum = true;
                    },
                    Side::Com => {
                        com = com + 1;
                        ray_com = true;
                    },
                }
            }
        },
        None => {},
    }
    match step_square(q, back) {
        Some(m) => {
            let pm: Piece = board.get(m);
            if pm.is_piece() {
                let sm: Side = pm.side();
                let steps: bool = pm.steps_in(d);
                let slides: bool = pm.slides_in(d);
                if steps {
                    match sm {
                        Side::Hum => {
                            hum = hum + 1;
                        },
                        Side::Com => {
                            com = com + 1;
                        },
                    }
                }
                if (steps || slides) && pm.kind().inner() != 8 {
                    match look_from(board, m, back) {
                        Some(t2) => {
                            let p2: Piece = board.get(t2);
                            if p2.slides_in(d) && p2.side() == sm {
                                match sm {
                                    Side::Hum => {
                                        hum = hum + 1;
                                    },
                                    Side::Com => {
                                        com = com + 1;
                                    },
                                }
                            }
                        },
                        None => {},
                    }
                }
            }
        },
        None => {},
    }
    (hum, com, ray_hum, ray_com)
}

/// The counts of the two sides on `q`, and the directions in which their
/// rays reach it.
pub fn count_attacks(board: &Board, q: Square) -> (r: (u8, u8, DirectionSetPair))
    requires
        q.on_board(),
    ensures
        r.0 == attack_count(board@, Side::Hum, q.0 as int),
        r.1 == attack_count(board@, Side::Com, q.0 as int),
        r.2 == ray_pair(board@, q.0 as int),
{
    let mut hum: u8 = 0;
    let mut com: u8 = 0;
    let mut bits_hum: u8 = 0;
    let mut bits_com: u8 = 0;
    let mut i: u32 = 0;
    while i < 8
        invariant
            i <= 8,
            q.on_board(),
            hum == dir_sum(board@, Side::Hum, q.0 as int, i as int),
            com == dir_sum(board@, Side::Com, q.0 as int, i as int),
            hum <= 3 * i,
            com <= 3 * i,
            bits_hum == ray_bits(board@, Side::Hum, q.0 as int, i as int),
            bits_com == ray_bits(board@, Side::Com, q.0 as int, i as int),
        decreases 8 - i,
    {
        let d: Direction = Direction::from_inner(i);
        let (h, c, rh, rc) = count_direction(board, q, d);
        proof {
            lemma_ray_bits(board@, Side::Hum, q.0 as int, (i + 1) as int);
            lemma_ray_bits(board@, Side::Com, q.0 as int, (i + 1) as int);
            vstd::arithmetic::power2::lemma2_to64();
            assert(vstd::arithmetic::power2::pow2((i + 1) as nat) <= 256) by {
                if i + 1 < 8 {
                    vstd::arithmetic::power2::lemma_pow2_strictly_increases((i + 1) as nat, 8);
                }
            }
        }
        hum = hum + h;
        com = com + c;
        let bit: u8 = DirectionSet::from_direction(d).inner();
        if rh {
            bits_hum = bits_hum + bit;
        }
        if rc {
            bits_com = bits_com + bit;
        }
        i += 1;
    }
    let (jh1, jc1) = count_jump(board, q, 1);
    let (jh2, jc2) = count_jump(board, q, -1);
    hum = hum + jh1 + jh2;
    com = com + jc1 + jc2;
    (hum, com, DirectionSetPair::new(DirectionSet(bits_hum), DirectionSet(bits_com)))
}

/// Whether a knight of each side attacks `q` from the file `dc` to the left
/// of it: 1 or 0 for HUM, then for COM.
pub fn count_jump(board: &Board, q: Square, dc: i32) -> (r: (u8, u8))
    requires
        q.on_board(),
        dc == 1 || dc == -1,
    ensures
        r.0 == b2i(jump_onto(board@, Side::Hum, q.0 as int, dc as int)),
        r.1 == b2i(jump_onto(board@, Side::Com, q.0 as int, dc as int)),
{
    let mut hum: u8 = 0;
    let mut com: u8 = 0;
    match offset_square(q, dc, 2) {
        Some(t) => {
            if board.get(t) == Piece::HKnight {
                hum = 1;
            }
        },
        None => {},
    }
    match offset_square(q, dc, -2) {
        Some(t) => {
            if board.get(t) == Piece::CKnight {
                com = 1;
            }
        },
        None => {},
    }
    (hum, com)
}

} // verus!
