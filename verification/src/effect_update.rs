//! Keeping the attack counts up to date when one square changes.
//!
//! When the piece on one square changes, the counts change only along the
//! eight lines that leave the square, and on the squares that a knight on
//! it reaches.  Along a line, the ray that leaves the square changes from
//! what the old piece sent (or let pass) to what the new piece sends (or
//! lets pass); the change is carried from square to square up to the first
//! piece, and one square further when that piece carries the ray on.

use vstd::prelude::*;
use crate::shogi::{Side, Square};
use crate::direction::{Direction, DirectionSet};
use crate::piece::{Piece, PieceKind};
use crate::board::Board;
use crate::bbs::{inb, offset_square, step_square};
use crate::effect::DirectionSetPair;
use crate::attack::{
    attack_count,
    b2i,
    dir_count,
    dir_sum,
    jump_onto,
    lemma_ray_bits,
    look,
    ray_bits,
    ray_onto,
    ray_pair,
};

verus! {

/// How many steps lead from file `c`, rank `r` in direction `d` to the
/// last square of the board.
pub open spec fn room(c: int, r: int, d: Direction) -> int {
    if d.dc() > 0 {
        8 - c
    } else if d.dc() < 0 {
        c
    } else if d.dr() > 0 {
        8 - r
    } else {
        r
    }
}

/// The squares after file `c`, rank `r` in direction `d`, nearest first.
pub open spec fn line(c: int, r: int, d: Direction) -> Seq<int>
    decreases room(c, r, d),
{
    if inb(c, r) && inb(c + d.dc(), r + d.dr()) {
        seq![9 * (c + d.dc()) + (r + d.dr())] + line(c + d.dc(), r + d.dr(), d)
    } else {
        Seq::empty()
    }
}

/// The square before square `q` in direction `d`; meaningless when that is
/// off the board.
pub open spec fn prev(q: int, d: Direction) -> int {
    9 * (q / 9 - d.dc()) + (q % 9 - d.dr())
}

/// Whether the square before square `q` in direction `d` is on the board.
pub open spec fn has_prev(q: int, d: Direction) -> bool {
    inb(q / 9 - d.dc(), q % 9 - d.dr())
}

/// The squares of a line are squares of the board, each the next after the
/// one before, and none is the square from which the line starts.
pub proof fn lemma_line(c: int, r: int, d: Direction, j: int)
    requires
        inb(c, r),
        0 <= j < line(c, r, d).len(),
    ensures
        0 <= line(c, r, d)[j] < 81,
        has_prev(line(c, r, d)[j], d),
        prev(line(c, r, d)[j], d) == (if j == 0 {
            9 * c + r
        } else {
            line(c, r, d)[j - 1]
        }),
        room(line(c, r, d)[j] / 9, line(c, r, d)[j] % 9, d) == room(c, r, d) - (j + 1),
        (j + 1 < line(c, r, d).len()) == inb(
            line(c, r, d)[j] / 9 + d.dc(),
            line(c, r, d)[j] % 9 + d.dr(),
        ),
        line(c, r, d).len() <= room(c, r, d),
    decreases j,
{
    let c1 = c + d.dc();
    let r1 = r + d.dr();
    let rest = line(c1, r1, d);
    assert(line(c, r, d) =~= seq![9 * c1 + r1] + rest);
    lemma_line_len(c1, r1, d);
    if j == 0 {
        assert(line(c, r, d)[0] == 9 * c1 + r1);
        assert((rest.len() > 0) == inb(c1 + d.dc(), r1 + d.dr()));
    } else {
        lemma_line(c1, r1, d, j - 1);
        assert(line(c, r, d)[j] == rest[j - 1]);
        if j - 1 > 0 {
            assert(line(c, r, d)[j - 1] == rest[j - 2]);
        }
    }
}

/// A line is no longer than the room that is left.
pub proof fn lemma_line_len(c: int, r: int, d: Direction)
    requires
        inb(c, r),
    ensures
        line(c, r, d).len() <= room(c, r, d),
        line(c, r, d).len() <= 8,
    decreases room(c, r, d),
{
    if inb(c + d.dc(), r + d.dr()) {
        lemma_line_len(c + d.dc(), r + d.dr(), d);
    }
}

/// The squares of a line differ from each other and from the square from
/// which the line starts.
pub proof fn lemma_line_distinct(c: int, r: int, d: Direction, i: int, j: int)
    requires
        inb(c, r),
        0 <= i < line(c, r, d).len(),
        0 <= j < line(c, r, d).len(),
    ensures
        line(c, r, d)[i] != 9 * c + r,
        i != j ==> line(c, r, d)[i] != line(c, r, d)[j],
{
    lemma_line(c, r, d, i);
    lemma_line(c, r, d, j);
    assert((9 * c + r) / 9 == c && (9 * c + r) % 9 == r);
}

/// The square after a square of the line, or after its start, is on the
/// line when it is on the board.
pub proof fn lemma_line_next(c: int, r: int, d: Direction, p: int, q: int)
    requires
        inb(c, r),
        0 <= q < 81,
        has_prev(q, d),
        prev(q, d) == p,
        p == 9 * c + r || line(c, r, d).contains(p),
    ensures
        line(c, r, d).contains(q),
{
    let l = line(c, r, d);
    assert(q / 9 == (q / 9 - d.dc()) + d.dc());
    let pc = q / 9 - d.dc();
    let pr = q % 9 - d.dr();
    assert(p / 9 == pc && p % 9 == pr);
    if p == 9 * c + r {
        assert(inb(c + d.dc(), r + d.dr()));
        assert(l =~= seq![9 * (c + d.dc()) + (r + d.dr())] + line(c + d.dc(), r + d.dr(), d));
        assert(l[0] == q);
    } else {
        let j = choose|j: int| 0 <= j < l.len() && l[j] == p;
        lemma_line(c, r, d, j);
        assert(inb(p / 9 + d.dc(), p % 9 + d.dr()));
        lemma_line(c, r, d, j + 1);
        assert(prev(l[j + 1], d) == p);
        assert(l[j + 1] == q);
    }
}

/// Looking further than the board reaches finds nothing more.
pub proof fn lemma_look_enough(b: Seq<Piece>, c: int, r: int, e: Direction, n: nat)
    requires
        inb(c, r),
        n >= room(c, r, e),
    ensures
        look(b, c, r, e, n) == look(b, c, r, e, n + 1),
    decreases n,
{
    let c1 = c + e.dc();
    let r1 = r + e.dr();
    if n == 0 {
        assert(!inb(c1, r1));
        assert(look(b, c, r, e, 1) == -1);
    } else if inb(c1, r1) && b[9 * c1 + r1] == Piece::NoPiece {
        lemma_look_enough(b, c1, r1, e, (n - 1) as nat);
    }
}

/// A ray arrives on a square from the square before: from the piece
/// there, if there is one and it slides that way, and else as it arrives
/// there.
pub proof fn lemma_ray_step(b: Seq<Piece>, s: Side, q: int, d: Direction)
    requires
        0 <= q < 81,
    ensures
        ray_onto(b, s, q, d) == (has_prev(q, d) && (if b[prev(q, d)] != Piece::NoPiece {
            b[prev(q, d)].is_of(s) && b[prev(q, d)].slides(d)
        } else {
            ray_onto(b, s, prev(q, d), d)
        })),
{
    let e = d.opp();
    assert(e.dc() == -d.dc() && e.dr() == -d.dr());
    let c = q / 9;
    let r = q % 9;
    let c1 = c + e.dc();
    let r1 = r + e.dr();
    assert(prev(q, d) == 9 * c1 + r1);
    if inb(c1, r1) && b[9 * c1 + r1] == Piece::NoPiece {
        assert((9 * c1 + r1) / 9 == c1 && (9 * c1 + r1) % 9 == r1);
        assert(room(c1, r1, e) <= 7);
        lemma_look_enough(b, c1, r1, e, 7);
        assert(look(b, c, r, e, 8) == look(b, c1, r1, e, 7));
    }
}

/// What a direction adds to a count, told from the square before.
pub proof fn lemma_dir_count_step(b: Seq<Piece>, s: Side, q: int, d: Direction)
    requires
        0 <= q < 81,
    ensures
        dir_count(b, s, q, d) == (if has_prev(q, d) {
            let p = b[prev(q, d)];
            b2i(p.is_of(s) && p.steps(d)) + b2i(
                if p != Piece::NoPiece {
                    p.is_of(s) && p.slides(d)
                } else {
                    ray_onto(b, s, prev(q, d), d)
                },
            ) + b2i(p.is_of(s) && p.supports(d) && ray_onto(b, s, prev(q, d), d))
        } else {
            0
        }),
{
    lemma_ray_step(b, s, q, d);
}

/// A change on a square does not change the rays that arrive on squares
/// off the line from it.
pub proof fn lemma_ray_off_line(b: Seq<Piece>, sq: int, z: Piece, s: Side, q: int, d: Direction)
    requires
        b.len() == 81,
        0 <= sq < 81,
        0 <= q < 81,
        !line(sq / 9, sq % 9, d).contains(q),
    ensures
        ray_onto(b.update(sq, z), s, q, d) == ray_onto(b, s, q, d),
    decreases room(q / 9, q % 9, d.opp()),
{
    let b2 = b.update(sq, z);
    let e = d.opp();
    assert(e.dc() == -d.dc() && e.dr() == -d.dr());
    lemma_ray_step(b, s, q, d);
    lemma_ray_step(b2, s, q, d);
    if has_prev(q, d) {
        let p = prev(q, d);
        assert(p / 9 == q / 9 - d.dc() && p % 9 == q % 9 - d.dr());
        assert(sq == 9 * (sq / 9) + sq % 9);
        if p == sq || line(sq / 9, sq % 9, d).contains(p) {
            lemma_line_next(sq / 9, sq % 9, d, p, q);
        }
        assert(b2[p] == b[p]);
        if b[p] == Piece::NoPiece {
            lemma_ray_off_line(b, sq, z, s, p, d);
        }
    }
}

/// A change on a square does not change what a direction adds to the
/// counts of squares off the line from it.
pub proof fn lemma_count_off_line(b: Seq<Piece>, sq: int, z: Piece, s: Side, q: int, d: Direction)
    requires
        b.len() == 81,
        0 <= sq < 81,
        0 <= q < 81,
        !line(sq / 9, sq % 9, d).contains(q),
    ensures
        dir_count(b.update(sq, z), s, q, d) == dir_count(b, s, q, d),
        ray_onto(b.update(sq, z), s, q, d) == ray_onto(b, s, q, d),
{
    let b2 = b.update(sq, z);
    lemma_dir_count_step(b, s, q, d);
    lemma_dir_count_step(b2, s, q, d);
    lemma_ray_off_line(b, sq, z, s, q, d);
    if has_prev(q, d) {
        let p = prev(q, d);
        assert(p / 9 == q / 9 - d.dc() && p % 9 == q % 9 - d.dr());
        assert(sq == 9 * (sq / 9) + sq % 9);
        if p == sq || line(sq / 9, sq % 9, d).contains(p) {
            lemma_line_next(sq / 9, sq % 9, d, p, q);
        }
        assert(b2[p] == b[p]);
        lemma_ray_off_line(b, sq, z, s, p, d);
    }
}

/// A change on a square does not change the rays that arrive beyond the
/// first piece on the line from it.
pub proof fn lemma_ray_beyond(
    b: Seq<Piece>,
    sq: int,
    z: Piece,
    s: Side,
    d: Direction,
    k: int,
    j: int,
)
    requires
        b.len() == 81,
        0 <= sq < 81,
        0 <= k < j < line(sq / 9, sq % 9, d).len(),
        b[line(sq / 9, sq % 9, d)[k]] != Piece::NoPiece,
    ensures
        ray_onto(b.update(sq, z), s, line(sq / 9, sq % 9, d)[j], d) == ray_onto(
            b,
            s,
            line(sq / 9, sq % 9, d)[j],
            d,
        ),
    decreases j,
{
    let l = line(sq / 9, sq % 9, d);
    let b2 = b.update(sq, z);
    lemma_line(sq / 9, sq % 9, d, j);
    lemma_line_distinct(sq / 9, sq % 9, d, j - 1, j);
    assert(sq == 9 * (sq / 9) + sq % 9);
    lemma_ray_step(b, s, l[j], d);
    lemma_ray_step(b2, s, l[j], d);
    assert(prev(l[j], d) == l[j - 1]);
    assert(b2[l[j - 1]] == b[l[j - 1]]);
    if j - 1 > k {
        lemma_ray_beyond(b, sq, z, s, d, k, j - 1);
    }
}

/// A change on a square does not change what the direction of a line adds
/// to the counts two or more squares beyond the first piece on the line.
pub proof fn lemma_count_beyond(
    b: Seq<Piece>,
    sq: int,
    z: Piece,
    s: Side,
    d: Direction,
    k: int,
    j: int,
)
    requires
        b.len() == 81,
        0 <= sq < 81,
        0 <= k,
        k + 1 < j < line(sq / 9, sq % 9, d).len(),
        b[line(sq / 9, sq % 9, d)[k]] != Piece::NoPiece,
    ensures
        dir_count(b.update(sq, z), s, line(sq / 9, sq % 9, d)[j], d) == dir_count(
            b,
            s,
            line(sq / 9, sq % 9, d)[j],
            d,
        ),
        ray_onto(b.update(sq, z), s, line(sq / 9, sq % 9, d)[j], d) == ray_onto(
            b,
            s,
            line(sq / 9, sq % 9, d)[j],
            d,
        ),
{
    let l = line(sq / 9, sq % 9, d);
    let b2 = b.update(sq, z);
    lemma_line(sq / 9, sq % 9, d, j);
    lemma_line_distinct(sq / 9, sq % 9, d, j - 1, j);
    assert(sq == 9 * (sq / 9) + sq % 9);
    lemma_dir_count_step(b, s, l[j], d);
    lemma_dir_count_step(b2, s, l[j], d);
    lemma_ray_beyond(b, sq, z, s, d, k, j);
    lemma_ray_beyond(b, sq, z, s, d, k, j - 1);
    assert(b2[l[j - 1]] == b[l[j - 1]]);
}

/// Whether a ray of `s` leaves a square in direction `d`, when `z` stands
/// on the square and `inn` says whether such a ray arrives there: a piece
/// sends its own ray or none, an empty square lets the ray pass.
pub open spec fn out_ray(z: Piece, s: Side, d: Direction, inn: bool) -> bool {
    if z != Piece::NoPiece {
        z.is_of(s) && z.slides(d)
    } else {
        inn
    }
}

/// What direction `d` adds to the count of `s` on a square, when `p`
/// stands on the square before and `inn` says whether a ray of `s` arrives
/// there.
pub open spec fn count_after(p: Piece, s: Side, d: Direction, inn: bool) -> int {
    b2i(p.is_of(s) && p.steps(d)) + b2i(out_ray(p, s, d, inn)) + b2i(
        p.is_of(s) && p.supports(d) && inn,
    )
}

/// Whether the first `j` squares of the line from `sq` in direction `d`
/// are empty.
#[verifier::opaque]
pub open spec fn clear_line(b: Seq<Piece>, sq: int, d: Direction, j: int) -> bool {
    forall|t: int| 0 <= t < j ==> b[#[trigger] line(sq / 9, sq % 9, d)[t]] == Piece::NoPiece
}

/// Along the empty squares of the line from a square, and on the first
/// piece after them, the ray that arrives is the ray that leaves the
/// square.
pub proof fn lemma_ray_on_line(b: Seq<Piece>, sq: int, z: Piece, s: Side, d: Direction, j: int)
    requires
        b.len() == 81,
        0 <= sq < 81,
        0 <= j < line(sq / 9, sq % 9, d).len(),
        clear_line(b, sq, d, j),
    ensures
        ray_onto(b.update(sq, z), s, line(sq / 9, sq % 9, d)[j], d) == out_ray(
            z,
            s,
            d,
            ray_onto(b, s, sq, d),
        ),
    decreases j,
{
    reveal(clear_line);
    let l = line(sq / 9, sq % 9, d);
    let b2 = b.update(sq, z);
    assert(sq == 9 * (sq / 9) + sq % 9);
    lemma_line(sq / 9, sq % 9, d, j);
    lemma_ray_step(b2, s, l[j], d);
    if j == 0 {
        assert(prev(l[0], d) == sq);
        assert(!l.contains(sq)) by {
            if l.contains(sq) {
                let t = choose|t: int| 0 <= t < l.len() && l[t] == sq;
                lemma_line_distinct(sq / 9, sq % 9, d, t, t);
            }
        }
        lemma_ray_off_line(b, sq, z, s, sq, d);
    } else {
        lemma_line_distinct(sq / 9, sq % 9, d, j - 1, j);
        assert(b[l[j - 1]] == Piece::NoPiece);
        assert(b2[l[j - 1]] == Piece::NoPiece);
        lemma_ray_on_line(b, sq, z, s, d, j - 1);
    }
}

/// What the direction of the line adds to the counts along the line, up to
/// the square after the first piece.
pub proof fn lemma_count_on_line(b: Seq<Piece>, sq: int, z: Piece, s: Side, d: Direction, j: int)
    requires
        b.len() == 81,
        0 <= sq < 81,
        0 <= j < line(sq / 9, sq % 9, d).len(),
        clear_line(b, sq, d, j - 1),
    ensures
        dir_count(b.update(sq, z), s, line(sq / 9, sq % 9, d)[j], d) == (if j == 0 {
            count_after(z, s, d, ray_onto(b, s, sq, d))
        } else {
            count_after(
                b[line(sq / 9, sq % 9, d)[j - 1]],
                s,
                d,
                out_ray(z, s, d, ray_onto(b, s, sq, d)),
            )
        }),
        ray_onto(b.update(sq, z), s, line(sq / 9, sq % 9, d)[j], d) == (if j == 0 {
            out_ray(z, s, d, ray_onto(b, s, sq, d))
        } else {
            out_ray(b[line(sq / 9, sq % 9, d)[j - 1]], s, d, out_ray(z, s, d, ray_onto(b, s, sq, d)))
        }),
{
    reveal(clear_line);
    let l = line(sq / 9, sq % 9, d);
    let b2 = b.update(sq, z);
    assert(sq == 9 * (sq / 9) + sq % 9);
    lemma_line(sq / 9, sq % 9, d, j);
    lemma_dir_count_step(b2, s, l[j], d);
    lemma_ray_step(b2, s, l[j], d);
    if j == 0 {
        assert(prev(l[0], d) == sq);
        assert(!l.contains(sq)) by {
            if l.contains(sq) {
                let t = choose|t: int| 0 <= t < l.len() && l[t] == sq;
                lemma_line_distinct(sq / 9, sq % 9, d, t, t);
            }
        }
        lemma_ray_off_line(b, sq, z, s, sq, d);
    } else {
        lemma_line_distinct(sq / 9, sq % 9, d, j - 1, j);
        assert(b2[l[j - 1]] == b[l[j - 1]]);
        lemma_ray_on_line(b, sq, z, s, d, j - 1);
    }
}

/// The bit of direction `d` when `on` holds, else 0.
pub open spec fn bit_if(on: bool, d: Direction) -> int {
    if on {
        d.bit()
    } else {
        0
    }
}

/// The sum over the first `n` directions of what each adds to the count of
/// `s` on square `q`: on board `bn` for the first `i` directions, on board
/// `bw` for the others.
pub open spec fn mix_sum(bw: Seq<Piece>, bn: Seq<Piece>, s: Side, q: int, i: int, n: int) -> int
    decreases n,
{
    if n <= 0 {
        0
    } else {
        mix_sum(bw, bn, s, q, i, n - 1) + dir_count(
            if n - 1 < i {
                bn
            } else {
                bw
            },
            s,
            q,
            Direction::of_index(n - 1),
        )
    }
}

/// The bits of the directions among the first `n` in which a ray of `s`
/// reaches square `q`: on board `bn` for the first `i` directions, on
/// board `bw` for the others.
pub open spec fn mix_bits(bw: Seq<Piece>, bn: Seq<Piece>, s: Side, q: int, i: int, n: int) -> int
    decreases n,
{
    if n <= 0 {
        0
    } else {
        mix_bits(bw, bn, s, q, i, n - 1) + bit_if(
            ray_onto(
                if n - 1 < i {
                    bn
                } else {
                    bw
                },
                s,
                q,
                Direction::of_index(n - 1),
            ),
            Direction::of_index(n - 1),
        )
    }
}

/// The mixed sums are the sums of one board when no direction, or every
/// direction, is taken from the other; they stay within bounds; and one
/// direction more from the new board changes them by what that direction
/// adds on the two boards.
pub proof fn lemma_mix(bw: Seq<Piece>, bn: Seq<Piece>, s: Side, q: int, i: int, n: int)
    requires
        0 <= i <= 8,
        0 <= n <= 8,
    ensures
        0 <= mix_sum(bw, bn, s, q, i, n) <= 3 * n,
        0 <= mix_bits(bw, bn, s, q, i, n) < vstd::arithmetic::power2::pow2(n as nat),
        i == 0 ==> mix_sum(bw, bn, s, q, i, n) == dir_sum(bw, s, q, n) && mix_bits(bw, bn, s, q, i, n)
            == ray_bits(bw, s, q, n),
        i >= n ==> mix_sum(bw, bn, s, q, i, n) == dir_sum(bn, s, q, n) && mix_bits(bw, bn, s, q, i, n)
            == ray_bits(bn, s, q, n),
        i < 8 ==> mix_sum(bw, bn, s, q, i + 1, n) == mix_sum(bw, bn, s, q, i, n) + (if i < n {
            dir_count(bn, s, q, Direction::of_index(i)) - dir_count(bw, s, q, Direction::of_index(i))
        } else {
            0
        }),
        i < 8 ==> mix_bits(bw, bn, s, q, i + 1, n) == mix_bits(bw, bn, s, q, i, n) + (if i < n {
            bit_if(ray_onto(bn, s, q, Direction::of_index(i)), Direction::of_index(i)) - bit_if(
                ray_onto(bw, s, q, Direction::of_index(i)),
                Direction::of_index(i),
            )
        } else {
            0
        }),
    decreases n,
{
    vstd::arithmetic::power2::lemma2_to64();
    if n > 0 {
        lemma_mix(bw, bn, s, q, i, n - 1);
        vstd::arithmetic::power2::lemma_pow2_unfold(n as nat);
        let e = Direction::of_index(n - 1);
        assert(e.index() == n - 1);
        assert(e.bit() == vstd::arithmetic::power2::pow2((n - 1) as nat));
    }
}

/// What the counts and the ray sets hold while the directions are worked
/// through: the first `i` directions as on board `bn`, the others and the
/// knights as on board `bw`.
#[verifier::opaque]
pub open spec fn mixed(
    hum: Seq<u8>,
    com: Seq<u8>,
    rays: Seq<DirectionSetPair>,
    bw: Seq<Piece>,
    bn: Seq<Piece>,
    i: int,
) -> bool {
    &&& hum.len() == 81 && com.len() == 81 && rays.len() == 81
    &&& forall|q: int|
        0 <= q < 81 ==> (#[trigger] hum[q]) == mix_sum(bw, bn, Side::Hum, q, i, 8) + b2i(
            jump_onto(bw, Side::Hum, q, 1),
        ) + b2i(jump_onto(bw, Side::Hum, q, -1))
    &&& forall|q: int|
        0 <= q < 81 ==> (#[trigger] com[q]) == mix_sum(bw, bn, Side::Com, q, i, 8) + b2i(
            jump_onto(bw, Side::Com, q, 1),
        ) + b2i(jump_onto(bw, Side::Com, q, -1))
    &&& forall|q: int|
        0 <= q < 81 ==> (#[trigger] rays[q]).0 == mix_bits(bw, bn, Side::Hum, q, i, 8) + 256
            * mix_bits(bw, bn, Side::Com, q, i, 8)
}

/// Counts and ray sets that agree with a board.
pub open spec fn agree(
    hum: Seq<u8>,
    com: Seq<u8>,
    rays: Seq<DirectionSetPair>,
    b: Seq<Piece>,
) -> bool {
    &&& hum.len() == 81 && com.len() == 81 && rays.len() == 81
    &&& forall|q: int| 0 <= q < 81 ==> (#[trigger] hum[q]) == attack_count(b, Side::Hum, q)
    &&& forall|q: int| 0 <= q < 81 ==> (#[trigger] com[q]) == attack_count(b, Side::Com, q)
    &&& forall|q: int| 0 <= q < 81 ==> (#[trigger] rays[q]) == ray_pair(b, q)
}

/// Counts and ray sets that agree with a board are mixed with no
/// direction taken from the other board.
pub proof fn lemma_mixed_start(
    hum: Seq<u8>,
    com: Seq<u8>,
    rays: Seq<DirectionSetPair>,
    bw: Seq<Piece>,
    bn: Seq<Piece>,
)
    requires
        agree(hum, com, rays, bw),
    ensures
        mixed(hum, com, rays, bw, bn, 0),
{
    reveal(mixed);
    assert forall|q: int| 0 <= q < 81 implies (#[trigger] hum[q]) == mix_sum(
        bw,
        bn,
        Side::Hum,
        q,
        0,
        8,
    ) + b2i(jump_onto(bw, Side::Hum, q, 1)) + b2i(jump_onto(bw, Side::Hum, q, -1)) by {
        lemma_mix(bw, bn, Side::Hum, q, 0, 8);
    }
    assert forall|q: int| 0 <= q < 81 implies (#[trigger] com[q]) == mix_sum(
        bw,
        bn,
        Side::Com,
        q,
        0,
        8,
    ) + b2i(jump_onto(bw, Side::Com, q, 1)) + b2i(jump_onto(bw, Side::Com, q, -1)) by {
        lemma_mix(bw, bn, Side::Com, q, 0, 8);
    }
    assert forall|q: int| 0 <= q < 81 implies (#[trigger] rays[q]).0 == mix_bits(
        bw,
        bn,
        Side::Hum,
        q,
        0,
        8,
    ) + 256 * mix_bits(bw, bn, Side::Com, q, 0, 8) by {
        lemma_mix(bw, bn, Side::Hum, q, 0, 8);
        lemma_mix(bw, bn, Side::Com, q, 0, 8);
        lemma_ray_bits(bw, Side::Hum, q, 8);
        lemma_ray_bits(bw, Side::Com, q, 8);
        vstd::arithmetic::power2::lemma2_to64();
        assert(rays[q] == ray_pair(bw, q));
    }
}

/// What direction `d` adds to the count of `s` on square `q` on board
/// `bn`, less what it adds on board `bw`.
pub open spec fn count_gain(bw: Seq<Piece>, bn: Seq<Piece>, s: Side, q: int, d: Direction) -> int {
    dir_count(bn, s, q, d) - dir_count(bw, s, q, d)
}

/// The bit of direction `d` when a ray of `s` reaches square `q` in that
/// direction on board `bn`, less the same on board `bw`.
pub open spec fn bit_gain(bw: Seq<Piece>, bn: Seq<Piece>, s: Side, q: int, d: Direction) -> int {
    bit_if(ray_onto(bn, s, q, d), d) - bit_if(ray_onto(bw, s, q, d), d)
}

/// Counts and ray sets that differ from mixed ones by what one more
/// direction gains are mixed with that direction taken from the new board.
pub proof fn lemma_mixed_next(
    h0: Seq<u8>,
    c0: Seq<u8>,
    r0: Seq<DirectionSetPair>,
    hum: Seq<u8>,
    com: Seq<u8>,
    rays: Seq<DirectionSetPair>,
    bw: Seq<Piece>,
    bn: Seq<Piece>,
    d: Direction,
)
    requires
        mixed(h0, c0, r0, bw, bn, d.index()),
        hum.len() == 81 && com.len() == 81 && rays.len() == 81,
        forall|q: int| 0 <= q < 81 ==> (#[trigger] hum[q]) == h0[q] + count_gain(bw, bn, Side::Hum, q, d),
        forall|q: int| 0 <= q < 81 ==> (#[trigger] com[q]) == c0[q] + count_gain(bw, bn, Side::Com, q, d),
        forall|q: int|
            0 <= q < 81 ==> (#[trigger] rays[q]).0 == r0[q].0 + bit_gain(bw, bn, Side::Hum, q, d) + 256
                * bit_gain(bw, bn, Side::Com, q, d),
    ensures
        mixed(hum, com, rays, bw, bn, d.index() + 1),
{
    reveal(mixed);
    let i = d.index();
    assert(Direction::of_index(i) == d);
    assert forall|q: int| 0 <= q < 81 implies (#[trigger] hum[q]) == mix_sum(
        bw,
        bn,
        Side::Hum,
        q,
        i + 1,
        8,
    ) + b2i(jump_onto(bw, Side::Hum, q, 1)) + b2i(jump_onto(bw, Side::Hum, q, -1)) by {
        lemma_mix(bw, bn, Side::Hum, q, i, 8);
        assert(h0[q] == mix_sum(bw, bn, Side::Hum, q, i, 8) + b2i(jump_onto(bw, Side::Hum, q, 1))
            + b2i(jump_onto(bw, Side::Hum, q, -1)));
    }
    assert forall|q: int| 0 <= q < 81 implies (#[trigger] com[q]) == mix_sum(
        bw,
        bn,
        Side::Com,
        q,
        i + 1,
        8,
    ) + b2i(jump_onto(bw, Side::Com, q, 1)) + b2i(jump_onto(bw, Side::Com, q, -1)) by {
        lemma_mix(bw, bn, Side::Com, q, i, 8);
        assert(c0[q] == mix_sum(bw, bn, Side::Com, q, i, 8) + b2i(jump_onto(bw, Side::Com, q, 1))
            + b2i(jump_onto(bw, Side::Com, q, -1)));
    }
    assert forall|q: int| 0 <= q < 81 implies (#[trigger] rays[q]).0 == mix_bits(
        bw,
        bn,
        Side::Hum,
        q,
        i + 1,
        8,
    ) + 256 * mix_bits(bw, bn, Side::Com, q, i + 1, 8) by {
        lemma_mix(bw, bn, Side::Hum, q, i, 8);
        lemma_mix(bw, bn, Side::Com, q, i, 8);
        assert(r0[q].0 == mix_bits(bw, bn, Side::Hum, q, i, 8) + 256 * mix_bits(
            bw,
            bn,
            Side::Com,
            q,
            i,
            8,
        ));
    }
}

/// What the counts and ray sets of a mixed state gain on a square stays
/// within the bounds of their types.
pub proof fn lemma_gain_fits(
    h0: Seq<u8>,
    c0: Seq<u8>,
    r0: Seq<DirectionSetPair>,
    bw: Seq<Piece>,
    bn: Seq<Piece>,
    d: Direction,
    q: int,
)
    requires
        mixed(h0, c0, r0, bw, bn, d.index()),
        0 <= q < 81,
    ensures
        0 <= h0[q] + count_gain(bw, bn, Side::Hum, q, d) <= 26,
        0 <= c0[q] + count_gain(bw, bn, Side::Com, q, d) <= 26,
        0 <= r0[q].0 + bit_gain(bw, bn, Side::Hum, q, d) + 256 * bit_gain(bw, bn, Side::Com, q, d)
            <= 65535,
{
    reveal(mixed);
    let i = d.index();
    assert(Direction::of_index(i) == d);
    lemma_mix(bw, bn, Side::Hum, q, i, 8);
    lemma_mix(bw, bn, Side::Com, q, i, 8);
    lemma_mix(bw, bn, Side::Hum, q, i + 1, 8);
    lemma_mix(bw, bn, Side::Com, q, i + 1, 8);
    vstd::arithmetic::power2::lemma2_to64();
    assert(h0[q] == mix_sum(bw, bn, Side::Hum, q, i, 8) + b2i(jump_onto(bw, Side::Hum, q, 1)) + b2i(
        jump_onto(bw, Side::Hum, q, -1),
    ));
    assert(c0[q] == mix_sum(bw, bn, Side::Com, q, i, 8) + b2i(jump_onto(bw, Side::Com, q, 1)) + b2i(
        jump_onto(bw, Side::Com, q, -1),
    ));
    assert(r0[q].0 == mix_bits(bw, bn, Side::Hum, q, i, 8) + 256 * mix_bits(
        bw,
        bn,
        Side::Com,
        q,
        i,
        8,
    ));
}

/// What the direction of the line gains on the squares of the line, up to
/// the square after the first piece: on the first square the difference
/// between what the two pieces add, after an empty square the difference
/// between the rays that leave the changed square, and after a piece that
/// difference if the piece carries the ray on.
pub proof fn lemma_gain_on_line(
    b: Seq<Piece>,
    sq: int,
    was: Piece,
    now: Piece,
    s: Side,
    d: Direction,
    j: int,
)
    requires
        b.len() == 81,
        0 <= sq < 81,
        0 <= j < line(sq / 9, sq % 9, d).len(),
        clear_line(b, sq, d, j - 1),
    ensures
        ({
            let q = line(sq / 9, sq % 9, d)[j];
            let bw = b.update(sq, was);
            let bn = b.update(sq, now);
            let inn = ray_onto(b, s, sq, d);
            let ow = out_ray(was, s, d, inn);
            let on = out_ray(now, s, d, inn);
            &&& j == 0 ==> count_gain(bw, bn, s, q, d) == count_after(now, s, d, inn) - count_after(
                was,
                s,
                d,
                inn,
            ) && bit_gain(bw, bn, s, q, d) == bit_if(on, d) - bit_if(ow, d)
            &&& j > 0 && b[line(sq / 9, sq % 9, d)[j - 1]] == Piece::NoPiece ==> count_gain(
                bw,
                bn,
                s,
                q,
                d,
            ) == b2i(on) - b2i(ow) && bit_gain(bw, bn, s, q, d) == bit_if(on, d) - bit_if(ow, d)
            &&& j > 0 && b[line(sq / 9, sq % 9, d)[j - 1]] != Piece::NoPiece ==> count_gain(
                bw,
                bn,
                s,
                q,
                d,
            ) == (if b[line(sq / 9, sq % 9, d)[j - 1]].is_of(s) && b[line(
                sq / 9,
                sq % 9,
                d,
            )[j - 1]].supports(d) {
                b2i(on) - b2i(ow)
            } else {
                0
            }) && bit_gain(bw, bn, s, q, d) == 0
        }),
{
    reveal(clear_line);
    lemma_count_on_line(b, sq, was, s, d, j);
    lemma_count_on_line(b, sq, now, s, d, j);
}

/// The direction of a line gains nothing off the line, and nothing two or
/// more squares beyond the first piece on the line.
pub proof fn lemma_gain_elsewhere(
    b: Seq<Piece>,
    sq: int,
    was: Piece,
    now: Piece,
    s: Side,
    d: Direction,
    q: int,
    j: int,
)
    requires
        b.len() == 81,
        0 <= sq < 81,
        0 <= q < 81,
        0 <= j <= line(sq / 9, sq % 9, d).len(),
        forall|t: int| 0 <= t < j ==> #[trigger] line(sq / 9, sq % 9, d)[t] != q,
        j < line(sq / 9, sq % 9, d).len() ==> j >= 2 && b[line(sq / 9, sq % 9, d)[j - 2]]
            != Piece::NoPiece,
    ensures
        count_gain(b.update(sq, was), b.update(sq, now), s, q, d) == 0,
        bit_gain(b.update(sq, was), b.update(sq, now), s, q, d) == 0,
{
    let l = line(sq / 9, sq % 9, d);
    if l.contains(q) {
        let t = choose|t: int| 0 <= t < l.len() && l[t] == q;
        assert(t >= j);
        lemma_count_beyond(b, sq, was, s, d, j - 2, t);
        lemma_count_beyond(b, sq, now, s, d, j - 2, t);
    } else {
        lemma_count_off_line(b, sq, was, s, q, d);
        lemma_count_off_line(b, sq, now, s, q, d);
    }
}

/// Whether a ray of `s` leaves a square in direction `d`, when `z` stands
/// on the square and `inn` says whether such a ray arrives there.
pub fn out_of(z: Piece, s: Side, d: Direction, inn: bool) -> (r: bool)
    ensures
        r == out_ray(z, s, d, inn),
{
    if z.is_piece() {
        z.side() == s && z.slides_in(d)
    } else {
        inn
    }
}

/// Whether a piece of `s` carries a ray in direction `d` one square
/// further.
pub fn carries(p: Piece, s: Side, d: Direction) -> (r: bool)
    ensures
        r == (p.is_of(s) && p.supports(d)),
{
    p.is_piece() && p.side() == s && p.kind().inner() != 8 && (p.steps_in(d) || p.slides_in(d))
}

/// What direction `d` adds to the count of `s` on a square, when `p`
/// stands on the square before and `inn` says whether a ray of `s` arrives
/// there.
pub fn count_of(p: Piece, s: Side, d: Direction, inn: bool) -> (r: i32)
    ensures
        r == count_after(p, s, d, inn),
        0 <= r <= 3,
{
    let mut n: i32 = 0;
    if p.is_piece() && p.side() == s && p.steps_in(d) {
        n = n + 1;
    }
    if out_of(p, s, d, inn) {
        n = n + 1;
    }
    if inn && carries(p, s, d) {
        n = n + 1;
    }
    n
}

/// 1 for true, 0 for false.
pub fn one_if(on: bool) -> (r: i32)
    ensures
        r == b2i(on),
{
    if on {
        1
    } else {
        0
    }
}

/// The counts and ray sets with the gains of one square added.
pub fn add_gains(
    hum: &mut [u8; 81],
    com: &mut [u8; 81],
    rays: &mut [DirectionSetPair; 81],
    q: Square,
    gh: i32,
    gc: i32,
    bh: i32,
    bc: i32,
)
    requires
        q.on_board(),
        0 <= old(hum)@[q.0 as int] + gh <= 255,
        0 <= old(com)@[q.0 as int] + gc <= 255,
        -256 < bh < 256,
        -256 < bc < 256,
        0 <= old(rays)@[q.0 as int].0 + bh + 256 * bc <= 65535,
    ensures
        final(hum)@ == old(hum)@.update(q.0 as int, (old(hum)@[q.0 as int] + gh) as u8),
        final(com)@ == old(com)@.update(q.0 as int, (old(com)@[q.0 as int] + gc) as u8),
        final(rays)@ == old(rays)@.update(
            q.0 as int,
            DirectionSetPair((old(rays)@[q.0 as int].0 + bh + 256 * bc) as u16),
        ),
{
    let i: usize = q.0 as usize;
    let h: i32 = hum[i] as i32 + gh;
    let c: i32 = com[i] as i32 + gc;
    let r: i32 = rays[i].0 as i32 + bh + 256 * bc;
    hum[i] = h as u8;
    com[i] = c as u8;
    rays[i] = DirectionSetPair(r as u16);
}

/// Whether square `q` is among the first `j` squares of `l`.
pub open spec fn among(l: Seq<int>, j: int, q: int) -> bool {
    exists|t: int| 0 <= t < j && #[trigger] l[t] == q
}

/// The counts and ray sets of a mixed state, with the gains of one more
/// direction added on the first `j` squares of the line.
#[verifier::opaque]
pub open spec fn gained(
    h0: Seq<u8>,
    c0: Seq<u8>,
    r0: Seq<DirectionSetPair>,
    hum: Seq<u8>,
    com: Seq<u8>,
    rays: Seq<DirectionSetPair>,
    bw: Seq<Piece>,
    bn: Seq<Piece>,
    d: Direction,
    l: Seq<int>,
    j: int,
) -> bool {
    &&& hum.len() == 81 && com.len() == 81 && rays.len() == 81
    &&& forall|q: int|
        0 <= q < 81 ==> (#[trigger] hum[q]) == h0[q] + (if among(l, j, q) {
            count_gain(bw, bn, Side::Hum, q, d)
        } else {
            0
        })
    &&& forall|q: int|
        0 <= q < 81 ==> (#[trigger] com[q]) == c0[q] + (if among(l, j, q) {
            count_gain(bw, bn, Side::Com, q, d)
        } else {
            0
        })
    &&& forall|q: int|
        0 <= q < 81 ==> (#[trigger] rays[q]).0 == r0[q].0 + (if among(l, j, q) {
            bit_gain(bw, bn, Side::Hum, q, d) + 256 * bit_gain(bw, bn, Side::Com, q, d)
        } else {
            0
        })
}

/// Adding the gains of the next square of the line.
pub proof fn lemma_gained_step(
    h0: Seq<u8>,
    c0: Seq<u8>,
    r0: Seq<DirectionSetPair>,
    hum: Seq<u8>,
    com: Seq<u8>,
    rays: Seq<DirectionSetPair>,
    bw: Seq<Piece>,
    bn: Seq<Piece>,
    d: Direction,
    sq: int,
    j: int,
)
    requires
        0 <= sq < 81,
        0 <= j < line(sq / 9, sq % 9, d).len(),
        gained(h0, c0, r0, hum, com, rays, bw, bn, d, line(sq / 9, sq % 9, d), j),
    ensures
        ({
            let l = line(sq / 9, sq % 9, d);
            let q = l[j];
            &&& 0 <= q < 81
            &&& hum[q] == h0[q] && com[q] == c0[q] && rays[q] == r0[q]
            &&& gained(
                h0,
                c0,
                r0,
                hum.update(q, (h0[q] + count_gain(bw, bn, Side::Hum, q, d)) as u8),
                com.update(q, (c0[q] + count_gain(bw, bn, Side::Com, q, d)) as u8),
                rays.update(
                    q,
                    DirectionSetPair(
                        (r0[q].0 + bit_gain(bw, bn, Side::Hum, q, d) + 256 * bit_gain(
                            bw,
                            bn,
                            Side::Com,
                            q,
                            d,
                        )) as u16,
                    ),
                ),
                bw,
                bn,
                d,
                l,
                j + 1,
            ) || !(0 <= h0[q] + count_gain(bw, bn, Side::Hum, q, d) <= 255 && 0 <= c0[q] + count_gain(
                bw,
                bn,
                Side::Com,
                q,
                d,
            ) <= 255 && 0 <= r0[q].0 + bit_gain(bw, bn, Side::Hum, q, d) + 256 * bit_gain(
                bw,
                bn,
                Side::Com,
                q,
                d,
            ) <= 65535)
        }),
{
    reveal(gained);
    let l = line(sq / 9, sq % 9, d);
    let q = l[j];
    lemma_line(sq / 9, sq % 9, d, j);
    assert(!among(l, j, q)) by {
        if among(l, j, q) {
            let t = choose|t: int| 0 <= t < j && #[trigger] l[t] == q;
            lemma_line_distinct(sq / 9, sq % 9, d, t, j);
        }
    }
    assert(among(l, j + 1, q));
    assert forall|x: int| 0 <= x < 81 && x != q implies among(l, j + 1, x) == among(l, j, x) by {
        if among(l, j + 1, x) {
            let t = choose|t: int| 0 <= t < j + 1 && #[trigger] l[t] == x;
            assert(t < j);
        }
        if among(l, j, x) {
            let t = choose|t: int| 0 <= t < j && #[trigger] l[t] == x;
            assert(0 <= t < j + 1 && l[t] == x);
        }
    }
    assert(r0[q] == rays[q]) by {
        assert(rays[q].0 == r0[q].0);
    }
}

/// When a direction has been worked through, the counts and ray sets are
/// mixed with that direction taken from the new board.
pub proof fn lemma_pass_done(
    h0: Seq<u8>,
    c0: Seq<u8>,
    r0: Seq<DirectionSetPair>,
    hum: Seq<u8>,
    com: Seq<u8>,
    rays: Seq<DirectionSetPair>,
    b: Seq<Piece>,
    sq: int,
    was: Piece,
    now: Piece,
    d: Direction,
    j: int,
)
    requires
        b.len() == 81,
        0 <= sq < 81,
        0 <= j <= line(sq / 9, sq % 9, d).len(),
        j < line(sq / 9, sq % 9, d).len() ==> j >= 2 && b[line(sq / 9, sq % 9, d)[j - 2]]
            != Piece::NoPiece,
        mixed(h0, c0, r0, b.update(sq, was), b.update(sq, now), d.index()),
        gained(
            h0,
            c0,
            r0,
            hum,
            com,
            rays,
            b.update(sq, was),
            b.update(sq, now),
            d,
            line(sq / 9, sq % 9, d),
            j,
        ),
    ensures
        mixed(hum, com, rays, b.update(sq, was), b.update(sq, now), d.index() + 1),
{
    reveal(gained);
    let bw = b.update(sq, was);
    let bn = b.update(sq, now);
    let l = line(sq / 9, sq % 9, d);
    assert forall|q: int| 0 <= q < 81 && !among(l, j, q) implies count_gain(bw, bn, Side::Hum, q, d)
        == 0 && count_gain(bw, bn, Side::Com, q, d) == 0 && bit_gain(bw, bn, Side::Hum, q, d) == 0
        && bit_gain(bw, bn, Side::Com, q, d) == 0 by {
        assert forall|t: int| 0 <= t < j implies #[trigger] l[t] != q by {
            if l[t] == q {
                assert(among(l, j, q));
            }
        }
        lemma_gain_elsewhere(b, sq, was, now, Side::Hum, d, q, j);
        lemma_gain_elsewhere(b, sq, was, now, Side::Com, d, q, j);
    }
    lemma_mixed_next(h0, c0, r0, hum, com, rays, bw, bn, d);
}

/// Counts and ray sets that are mixed with nothing taken from the other
/// board yet hold no gains yet.
pub proof fn lemma_gained_start(
    h0: Seq<u8>,
    c0: Seq<u8>,
    r0: Seq<DirectionSetPair>,
    bw: Seq<Piece>,
    bn: Seq<Piece>,
    d: Direction,
    l: Seq<int>,
)
    requires
        mixed(h0, c0, r0, bw, bn, d.index()),
    ensures
        gained(h0, c0, r0, h0, c0, r0, bw, bn, d, l, 0),
{
    reveal(gained);
    reveal(mixed);
    assert forall|q: int| !among(l, 0, q) by {}
}

/// When every direction is taken from the new board, the counts hold the
/// eight directions of the new board and the knights of the old one, and
/// the ray sets are those of the new board.
pub proof fn lemma_mixed_end(
    hum: Seq<u8>,
    com: Seq<u8>,
    rays: Seq<DirectionSetPair>,
    bw: Seq<Piece>,
    bn: Seq<Piece>,
)
    requires
        mixed(hum, com, rays, bw, bn, 8),
    ensures
        hum.len() == 81 && com.len() == 81 && rays.len() == 81,
        forall|q: int|
            0 <= q < 81 ==> (#[trigger] hum[q]) == dir_sum(bn, Side::Hum, q, 8) + jumps(
                bw,
                Side::Hum,
                q,
            ),
        forall|q: int|
            0 <= q < 81 ==> (#[trigger] com[q]) == dir_sum(bn, Side::Com, q, 8) + jumps(
                bw,
                Side::Com,
                q,
            ),
        forall|q: int| 0 <= q < 81 ==> (#[trigger] rays[q]) == ray_pair(bn, q),
{
    reveal(mixed);
    assert forall|q: int| 0 <= q < 81 implies (#[trigger] hum[q]) == dir_sum(bn, Side::Hum, q, 8)
        + jumps(bw, Side::Hum, q) by {
        lemma_mix(bw, bn, Side::Hum, q, 8, 8);
    }
    assert forall|q: int| 0 <= q < 81 implies (#[trigger] com[q]) == dir_sum(bn, Side::Com, q, 8)
        + jumps(bw, Side::Com, q) by {
        lemma_mix(bw, bn, Side::Com, q, 8, 8);
    }
    assert forall|q: int| 0 <= q < 81 implies (#[trigger] rays[q]) == ray_pair(bn, q) by {
        lemma_mix(bw, bn, Side::Hum, q, 8, 8);
        lemma_mix(bw, bn, Side::Com, q, 8, 8);
        lemma_ray_bits(bn, Side::Hum, q, 8);
        lemma_ray_bits(bn, Side::Com, q, 8);
        vstd::arithmetic::power2::lemma2_to64();
        assert(rays[q].0 == ray_pair(bn, q).0);
    }
}

/// One step of working a direction through: the gains that are added on
/// the next square of the line are the gains of that square, and fit.
pub proof fn lemma_pass_step(
    h0: Seq<u8>,
    c0: Seq<u8>,
    r0: Seq<DirectionSetPair>,
    hum: Seq<u8>,
    com: Seq<u8>,
    rays: Seq<DirectionSetPair>,
    b: Seq<Piece>,
    sq: int,
    was: Piece,
    now: Piece,
    d: Direction,
    j: int,
    in_hum: bool,
    in_com: bool,
    before: Piece,
    gh: int,
    gc: int,
    bh: int,
    bc: int,
)
    requires
        b.len() == 81,
        0 <= sq < 81,
        0 <= j < line(sq / 9, sq % 9, d).len(),
        clear_line(b, sq, d, j - 1),
        j >= 1 ==> before == b[line(sq / 9, sq % 9, d)[j - 1]],
        in_hum == ray_onto(b, Side::Hum, sq, d),
        in_com == ray_onto(b, Side::Com, sq, d),
        mixed(h0, c0, r0, b.update(sq, was), b.update(sq, now), d.index()),
        gained(
            h0,
            c0,
            r0,
            hum,
            com,
            rays,
            b.update(sq, was),
            b.update(sq, now),
            d,
            line(sq / 9, sq % 9, d),
            j,
        ),
        gh == pass_count(was, now, Side::Hum, d, in_hum, j, before),
        gc == pass_count(was, now, Side::Com, d, in_com, j, before),
        bh == pass_bit(was, now, Side::Hum, d, in_hum, j, before),
        bc == pass_bit(was, now, Side::Com, d, in_com, j, before),
    ensures
        ({
            let q = line(sq / 9, sq % 9, d)[j];
            &&& 0 <= q < 81
            &&& 0 <= hum[q] + gh <= 255
            &&& 0 <= com[q] + gc <= 255
            &&& -256 < bh < 256
            &&& -256 < bc < 256
            &&& 0 <= rays[q].0 + bh + 256 * bc <= 65535
            &&& gained(
                h0,
                c0,
                r0,
                hum.update(q, (hum[q] + gh) as u8),
                com.update(q, (com[q] + gc) as u8),
                rays.update(q, DirectionSetPair((rays[q].0 + bh + 256 * bc) as u16)),
                b.update(sq, was),
                b.update(sq, now),
                d,
                line(sq / 9, sq % 9, d),
                j + 1,
            )
        }),
{
    let bw = b.update(sq, was);
    let bn = b.update(sq, now);
    let q = line(sq / 9, sq % 9, d)[j];
    lemma_gain_on_line(b, sq, was, now, Side::Hum, d, j);
    lemma_gain_on_line(b, sq, was, now, Side::Com, d, j);
    lemma_line(sq / 9, sq % 9, d, j);
    lemma_gain_fits(h0, c0, r0, bw, bn, d, q);
    lemma_gained_step(h0, c0, r0, hum, com, rays, bw, bn, d, sq, j);
    assert(gh == count_gain(bw, bn, Side::Hum, q, d));
    assert(gc == count_gain(bw, bn, Side::Com, q, d));
    assert(bh == bit_gain(bw, bn, Side::Hum, q, d));
    assert(bc == bit_gain(bw, bn, Side::Com, q, d));
}

/// What is added to the count of `s` on square `j` of the line.
pub open spec fn pass_count(
    was: Piece,
    now: Piece,
    s: Side,
    d: Direction,
    inn: bool,
    j: int,
    before: Piece,
) -> int {
    let e = b2i(out_ray(now, s, d, inn)) - b2i(out_ray(was, s, d, inn));
    if j == 0 {
        count_after(now, s, d, inn) - count_after(was, s, d, inn)
    } else if before == Piece::NoPiece {
        e
    } else if before.is_of(s) && before.supports(d) {
        e
    } else {
        0
    }
}

/// What is added to the ray set of `s` on square `j` of the line.
pub open spec fn pass_bit(
    was: Piece,
    now: Piece,
    s: Side,
    d: Direction,
    inn: bool,
    j: int,
    before: Piece,
) -> int {
    if j >= 1 && before != Piece::NoPiece {
        0
    } else {
        bit_if(out_ray(now, s, d, inn), d) - bit_if(out_ray(was, s, d, inn), d)
    }
}

/// No square is the same as having no squares to be empty, and one more
/// empty square makes the run of empty squares one longer.
pub proof fn lemma_clear_more(b: Seq<Piece>, sq: int, d: Direction, j: int)
    requires
        clear_line(b, sq, d, j - 1),
        j >= 1 ==> b[line(sq / 9, sq % 9, d)[j - 1]] == Piece::NoPiece,
    ensures
        clear_line(b, sq, d, j),
{
    reveal(clear_line);
}

/// No squares are empty squares.
pub proof fn lemma_clear_none(b: Seq<Piece>, sq: int, d: Direction, j: int)
    requires
        j <= 0,
    ensures
        clear_line(b, sq, d, j),
{
    reveal(clear_line);
}

/// The square after square `j` of a line is on the board exactly when the
/// line goes on, and is then square `j + 1`; the square after the start is
/// on the board exactly when the line is not empty, and is then square 0.
pub proof fn lemma_line_advance(sq: int, d: Direction, j: int)
    requires
        0 <= sq < 81,
        -1 <= j < line(sq / 9, sq % 9, d).len(),
    ensures
        line(sq / 9, sq % 9, d).len() <= 8,
        ({
            let l = line(sq / 9, sq % 9, d);
            let q = if j < 0 {
                sq
            } else {
                l[j]
            };
            &&& 0 <= q < 81
            &&& (j + 1 < l.len()) == inb(q / 9 + d.dc(), q % 9 + d.dr())
            &&& j + 1 < l.len() ==> l[j + 1] == 9 * (q / 9 + d.dc()) + (q % 9 + d.dr())
        }),
{
    let l = line(sq / 9, sq % 9, d);
    lemma_line_len(sq / 9, sq % 9, d);
    assert(sq == 9 * (sq / 9) + sq % 9);
    if j >= 0 {
        lemma_line(sq / 9, sq % 9, d, j);
    }
    if j + 1 < l.len() {
        lemma_line(sq / 9, sq % 9, d, j + 1);
    }
}

/// What is added to the counts and ray sets of the two sides on square
/// `j` of the line, when `before` stands on the square before it.
pub fn pass_gains(
    was: Piece,
    now: Piece,
    d: Direction,
    in_hum: bool,
    in_com: bool,
    first: bool,
    before: Piece,
) -> (r: (i32, i32, i32, i32))
    ensures
        r.0 == pass_count(was, now, Side::Hum, d, in_hum, if first { 0int } else { 1int }, before),
        r.1 == pass_count(was, now, Side::Com, d, in_com, if first { 0int } else { 1int }, before),
        r.2 == pass_bit(was, now, Side::Hum, d, in_hum, if first { 0int } else { 1int }, before),
        r.3 == pass_bit(was, now, Side::Com, d, in_com, if first { 0int } else { 1int }, before),
{
    let ow_h: bool = out_of(was, Side::Hum, d, in_hum);
    let on_h: bool = out_of(now, Side::Hum, d, in_hum);
    let ow_c: bool = out_of(was, Side::Com, d, in_com);
    let on_c: bool = out_of(now, Side::Com, d, in_com);
    let e_h: i32 = one_if(on_h) - one_if(ow_h);
    let e_c: i32 = one_if(on_c) - one_if(ow_c);
    let bit: i32 = DirectionSet::from_direction(d).inner() as i32;
    assert(bit == d.bit());
    let eb_h: i32 = (if on_h { bit } else { 0 }) - (if ow_h { bit } else { 0 });
    let eb_c: i32 = (if on_c { bit } else { 0 }) - (if ow_c { bit } else { 0 });
    if first {
        let n_h: i32 = count_of(now, Side::Hum, d, in_hum) - count_of(was, Side::Hum, d, in_hum);
        let n_c: i32 = count_of(now, Side::Com, d, in_com) - count_of(was, Side::Com, d, in_com);
        (n_h, n_c, eb_h, eb_c)
    } else if !before.is_piece() {
        (e_h, e_c, eb_h, eb_c)
    } else {
        let gh: i32 = if carries(before, Side::Hum, d) { e_h } else { 0 };
        let gc: i32 = if carries(before, Side::Com, d) { e_c } else { 0 };
        (gh, gc, 0, 0)
    }
}

/// Works the change on square `sq` from `was` to `now` into the counts and
/// ray sets for one direction: along the line from `sq` up to the first
/// piece, and one square further.  `in_hum` and `in_com` say whether a ray
/// of each side arrives on `sq` in that direction.
pub fn update_effect_ranged(
    board: &Board,
    sq: Square,
    was: Piece,
    now: Piece,
    d: Direction,
    in_hum: bool,
    in_com: bool,
    hum: &mut [u8; 81],
    com: &mut [u8; 81],
    rays: &mut [DirectionSetPair; 81],
)
    requires
        sq.on_board(),
        in_hum == ray_onto(board@, Side::Hum, sq.0 as int, d),
        in_com == ray_onto(board@, Side::Com, sq.0 as int, d),
        mixed(
            old(hum)@,
            old(com)@,
            old(rays)@,
            board@.update(sq.0 as int, was),
            board@.update(sq.0 as int, now),
            d.index(),
        ),
    ensures
        mixed(
            final(hum)@,
            final(com)@,
            final(rays)@,
            board@.update(sq.0 as int, was),
            board@.update(sq.0 as int, now),
            d.index() + 1,
        ),
{
    let ghost b = board@;
    let ghost bw = b.update(sq.0 as int, was);
    let ghost bn = b.update(sq.0 as int, now);
    let ghost l = line(sq.0 as int / 9, sq.0 as int % 9, d);
    let ghost h0 = hum@;
    let ghost c0 = com@;
    let ghost r0 = rays@;
    let mut cur: Option<Square> = step_square(sq, d);
    let mut j: usize = 0;
    let mut before: Piece = Piece::NoPiece;
    let mut go: bool = true;
    proof {
        lemma_line_advance(sq.0 as int, d, -1);
        lemma_gained_start(h0, c0, r0, bw, bn, d, l);
        lemma_clear_none(b, sq.0 as int, d, -1);
    }
    while go && cur.is_some()
        invariant
            sq.on_board(),
            b == board@,
            b.len() == 81,
            bw == b.update(sq.0 as int, was),
            bn == b.update(sq.0 as int, now),
            l == line(sq.0 as int / 9, sq.0 as int % 9, d),
            in_hum == ray_onto(b, Side::Hum, sq.0 as int, d),
            in_com == ray_onto(b, Side::Com, sq.0 as int, d),
            mixed(h0, c0, r0, bw, bn, d.index()),
            0 <= j <= l.len() <= 8,
            go ==> cur.is_some() == (j < l.len()),
            go && cur.is_some() ==> cur.unwrap().0 == l[j as int] && cur.unwrap().on_board(),
            go ==> clear_line(b, sq.0 as int, d, j - 1),
            go && j >= 1 ==> before == b[l[j - 1]],
            !go ==> j >= 2 && b[l[j - 2]] != Piece::NoPiece,
            gained(h0, c0, r0, hum@, com@, rays@, bw, bn, d, l, j as int),
        decreases (if go { 1int } else { 0int }), l.len() - j,
    {
        let q: Square = cur.unwrap();
        let (gh, gc, bh, bc) = pass_gains(was, now, d, in_hum, in_com, j == 0, before);
        proof {
            lemma_pass_step(
                h0,
                c0,
                r0,
                hum@,
                com@,
                rays@,
                b,
                sq.0 as int,
                was,
                now,
                d,
                j as int,
                in_hum,
                in_com,
                before,
                gh as int,
                gc as int,
                bh as int,
                bc as int,
            );
        }
        add_gains(hum, com, rays, q, gh, gc, bh, bc);
        if j >= 1 && before.is_piece() {
            go = false;
        } else {
            before = board.get(q);
            cur = step_square(q, d);
            proof {
                lemma_line_advance(sq.0 as int, d, j as int);
                lemma_clear_more(b, sq.0 as int, d, j as int);
            }
        }
        j = j + 1;
    }
    proof {
        lemma_pass_done(h0, c0, r0, hum@, com@, rays@, b, sq.0 as int, was, now, d, j as int);
    }
}

/// The set of a side in the ray sets of a square holds the directions in
/// which a ray of the side reaches the square.
pub proof fn lemma_ray_pair(b: Seq<Piece>, q: int, s: Side, d: Direction)
    ensures
        ray_pair(b, q).of(s).has(d) == ray_onto(b, s, q, d),
{
    lemma_ray_bits(b, Side::Hum, q, 8);
    lemma_ray_bits(b, Side::Com, q, 8);
    vstd::arithmetic::power2::lemma2_to64();
    let h = ray_bits(b, Side::Hum, q, 8);
    let c = ray_bits(b, Side::Com, q, 8);
    assert((h + 256 * c) % 256 == h && (h + 256 * c) / 256 == c);
}

/// The square on which a knight of `s` that stands on `sq` lands when it
/// jumps `dc` files to the right; meaningless when that is off the board.
pub open spec fn jump_target(sq: int, s: Side, dc: int) -> int {
    9 * (sq / 9 - dc) + (sq % 9 + 2 * Piece::forward(s).dr())
}

/// Whether the jump of a knight of `s` from `sq`, `dc` files to the right,
/// stays on the board.
pub open spec fn jump_lands(sq: int, s: Side, dc: int) -> bool {
    inb(sq / 9 - dc, sq % 9 + 2 * Piece::forward(s).dr())
}

/// How often knights of `s` attack square `q`.
pub open spec fn jumps(b: Seq<Piece>, s: Side, q: int) -> int {
    b2i(jump_onto(b, s, q, 1)) + b2i(jump_onto(b, s, q, -1))
}

/// A change on a square changes the attacks by knights on the two squares
/// that a knight on it reaches, by one when a knight of the side comes or
/// goes.
pub proof fn lemma_jump_gain(b: Seq<Piece>, sq: int, was: Piece, now: Piece, s: Side, q: int)
    requires
        b.len() == 81,
        0 <= sq < 81,
        0 <= q < 81,
    ensures
        jumps(b.update(sq, now), s, q) - jumps(b.update(sq, was), s, q) == (if (jump_lands(sq, s, 1)
            && q == jump_target(sq, s, 1)) || (jump_lands(sq, s, -1) && q == jump_target(sq, s, -1)) {
            b2i(now == Piece::of(s, PieceKind::Knight)) - b2i(was == Piece::of(s, PieceKind::Knight))
        } else {
            0
        }),
{
    let bw = b.update(sq, was);
    let bn = b.update(sq, now);
    let f = Piece::forward(s).dr();
    assert(sq == 9 * (sq / 9) + sq % 9);
    assert(q == 9 * (q / 9) + q % 9);
    let a1 = 9 * (q / 9 + 1) + (q % 9 - 2 * f);
    let a2 = 9 * (q / 9 - 1) + (q % 9 - 2 * f);
    if inb(q / 9 + 1, q % 9 - 2 * f) && a1 != sq {
        assert(bw[a1] == bn[a1]);
    }
    if inb(q / 9 - 1, q % 9 - 2 * f) && a2 != sq {
        assert(bw[a2] == bn[a2]);
    }
}

/// The counts `a` with `g` added on square `t`, if there is one.
pub open spec fn bumped(a: Seq<u8>, t: Option<Square>, g: int) -> Seq<u8> {
    match t {
        Some(x) => a.update(x.0 as int, (a[x.0 as int] + g) as u8),
        None => a,
    }
}

/// Whether `t` is the square on which a knight of `s` from `sq` lands, `dc`
/// files to the right, or nothing when there is no such square.
pub open spec fn is_jump_target(t: Option<Square>, sq: int, s: Side, dc: int) -> bool {
    match t {
        Some(x) => jump_lands(sq, s, dc) && x.0 == jump_target(sq, s, dc),
        None => !jump_lands(sq, s, dc),
    }
}

/// Whether `t` is square `q`.
pub open spec fn is_square(t: Option<Square>, q: int) -> bool {
    t.is_some() && t.unwrap().0 == q
}

/// What the count of the new board on a square is, in terms of counts that
/// hold the knights of the old board: the gain of a knight more on the two
/// squares that a knight reaches, and nothing more elsewhere.
pub proof fn lemma_jump_at(
    a0: Seq<u8>,
    b: Seq<Piece>,
    sq: int,
    was: Piece,
    now: Piece,
    s: Side,
    t1: Option<Square>,
    t2: Option<Square>,
    g: int,
    q: int,
)
    requires
        b.len() == 81,
        0 <= sq < 81,
        0 <= q < 81,
        is_jump_target(t1, sq, s, 1),
        is_jump_target(t2, sq, s, -1),
        g == b2i(now == Piece::of(s, PieceKind::Knight)) - b2i(was == Piece::of(s, PieceKind::Knight)),
        a0[q] == dir_sum(b.update(sq, now), s, q, 8) + jumps(b.update(sq, was), s, q),
    ensures
        attack_count(b.update(sq, now), s, q) == a0[q] + (if is_square(t1, q) || is_square(t2, q) {
            g
        } else {
            0
        }),
        0 <= attack_count(b.update(sq, now), s, q) <= 26,
        !(is_square(t1, q) && is_square(t2, q)),
{
    lemma_jump_gain(b, sq, was, now, s, q);
    crate::attack::lemma_attack_count_bound(b.update(sq, now), s, q);
    assert(sq == 9 * (sq / 9) + sq % 9);
}

/// Adding the gain of a knight on the two squares that it reaches turns
/// counts that hold the knights of the old board into counts of the new
/// board; and what is added fits.
pub proof fn lemma_jump_pass(
    a0: Seq<u8>,
    b: Seq<Piece>,
    sq: int,
    was: Piece,
    now: Piece,
    s: Side,
    t1: Option<Square>,
    t2: Option<Square>,
    g: int,
)
    requires
        b.len() == 81,
        a0.len() == 81,
        0 <= sq < 81,
        is_jump_target(t1, sq, s, 1),
        is_jump_target(t2, sq, s, -1),
        t1.is_some() ==> 0 <= t1.unwrap().0 < 81,
        t2.is_some() ==> 0 <= t2.unwrap().0 < 81,
        g == b2i(now == Piece::of(s, PieceKind::Knight)) - b2i(was == Piece::of(s, PieceKind::Knight)),
        forall|q: int|
            0 <= q < 81 ==> (#[trigger] a0[q]) == dir_sum(b.update(sq, now), s, q, 8) + jumps(
                b.update(sq, was),
                s,
                q,
            ),
    ensures
        t1.is_some() ==> 0 <= a0[t1.unwrap().0 as int] + g <= 255,
        t2.is_some() ==> 0 <= bumped(a0, t1, g)[t2.unwrap().0 as int] + g <= 255,
        forall|q: int|
            0 <= q < 81 ==> (#[trigger] bumped(bumped(a0, t1, g), t2, g)[q]) == attack_count(
                b.update(sq, now),
                s,
                q,
            ),
{
    let bn = b.update(sq, now);
    if t1.is_some() {
        let x = t1.unwrap().0 as int;
        assert(a0[x] == dir_sum(bn, s, x, 8) + jumps(b.update(sq, was), s, x));
        lemma_jump_at(a0, b, sq, was, now, s, t1, t2, g, x);
    }
    if t2.is_some() {
        let x = t2.unwrap().0 as int;
        assert(a0[x] == dir_sum(bn, s, x, 8) + jumps(b.update(sq, was), s, x));
        lemma_jump_at(a0, b, sq, was, now, s, t1, t2, g, x);
    }
    assert forall|q: int| 0 <= q < 81 implies (#[trigger] bumped(bumped(a0, t1, g), t2, g)[q])
        == attack_count(bn, s, q) by {
        assert(a0[q] == dir_sum(bn, s, q, 8) + jumps(b.update(sq, was), s, q));
        lemma_jump_at(a0, b, sq, was, now, s, t1, t2, g, q);
    }
}

/// Adds `g` to the count on square `t`, if there is one.
pub fn add_count(arr: &mut [u8; 81], t: Option<Square>, g: i32)
    requires
        t.is_some() ==> t.unwrap().on_board() && 0 <= old(arr)@[t.unwrap().0 as int] + g <= 255,
    ensures
        final(arr)@ == bumped(old(arr)@, t, g as int),
{
    match t {
        Some(q) => {
            let i: usize = q.0 as usize;
            let v: i32 = arr[i] as i32 + g;
            arr[i] = v as u8;
        },
        None => {},
    }
}

/// Works the change on square `sq` from `was` to `now` into the counts of
/// side `s` as far as knights go.
pub fn update_effect_jump(board: &Board, sq: Square, was: Piece, now: Piece, s: Side, arr: &mut [u8; 81])
    requires
        sq.on_board(),
        forall|q: int|
            0 <= q < 81 ==> (#[trigger] old(arr)@[q]) == dir_sum(
                board@.update(sq.0 as int, now),
                s,
                q,
                8,
            ) + jumps(board@.update(sq.0 as int, was), s, q),
    ensures
        forall|q: int|
            0 <= q < 81 ==> (#[trigger] final(arr)@[q]) == attack_count(
                board@.update(sq.0 as int, now),
                s,
                q,
            ),
{
    let knight: Piece = Piece::new(s, PieceKind::Knight);
    let g: i32 = one_if(now == knight) - one_if(was == knight);
    let dr: i32 = match s {
        Side::Hum => -2,
        Side::Com => 2,
    };
    let t1: Option<Square> = offset_square(sq, -1, dr);
    let t2: Option<Square> = offset_square(sq, 1, dr);
    proof {
        assert(dr == 2 * Piece::forward(s).dr());
        lemma_jump_pass(arr@, board@, sq.0 as int, was, now, s, t1, t2, g as int);
    }
    add_count(arr, t1, g);
    add_count(arr, t2, g);
}

/// Works the change on square `sq` from `was` to `now` into the counts and
/// the ray sets: counts and ray sets that agree with the board that has
/// `was` on `sq` come to agree with the board that has `now` there.  What
/// `board` itself holds on `sq` does not matter.
pub fn update_effect(
    board: &Board,
    sq: Square,
    was: Piece,
    now: Piece,
    hum: &mut [u8; 81],
    com: &mut [u8; 81],
    rays: &mut [DirectionSetPair; 81],
)
    requires
        sq.on_board(),
        agree(old(hum)@, old(com)@, old(rays)@, board@.update(sq.0 as int, was)),
    ensures
        agree(final(hum)@, final(com)@, final(rays)@, board@.update(sq.0 as int, now)),
{
    let ghost b = board@;
    let ghost bw = b.update(sq.0 as int, was);
    let ghost bn = b.update(sq.0 as int, now);
    let here: DirectionSetPair = rays[sq.0 as usize];
    let here_hum: DirectionSet = here.get(Side::Hum);
    let here_com: DirectionSet = here.get(Side::Com);
    proof {
        lemma_mixed_start(hum@, com@, rays@, bw, bn);
        assert(here == ray_pair(bw, sq.0 as int));
        assert forall|s: Side, d: Direction|
            ray_pair(bw, sq.0 as int).of(s).has(d) == #[trigger] ray_onto(b, s, sq.0 as int, d) by {
            lemma_ray_pair(bw, sq.0 as int, s, d);
            let l = line(sq.0 as int / 9, sq.0 as int % 9, d);
            if l.contains(sq.0 as int) {
                let t = choose|t: int| 0 <= t < l.len() && l[t] == sq.0 as int;
                lemma_line_distinct(sq.0 as int / 9, sq.0 as int % 9, d, t, t);
                assert(sq.0 as int == 9 * (sq.0 as int / 9) + sq.0 as int % 9);
            }
            lemma_ray_off_line(b, sq.0 as int, was, s, sq.0 as int, d);
        }
    }
    let mut i: u32 = 0;
    while i < 8
        invariant
            i <= 8,
            sq.on_board(),
            b == board@,
            bw == b.update(sq.0 as int, was),
            bn == b.update(sq.0 as int, now),
            forall|d: Direction| here_hum.has(d) == #[trigger] ray_onto(b, Side::Hum, sq.0 as int, d),
            forall|d: Direction| here_com.has(d) == #[trigger] ray_onto(b, Side::Com, sq.0 as int, d),
            mixed(hum@, com@, rays@, bw, bn, i as int),
        decreases 8 - i,
    {
        let d: Direction = Direction::from_inner(i);
        let in_hum: bool = here_hum.contains(d);
        let in_com: bool = here_com.contains(d);
        update_effect_ranged(board, sq, was, now, d, in_hum, in_com, hum, com, rays);
        i += 1;
    }
    proof {
        lemma_mixed_end(hum@, com@, rays@, bw, bn);
    }
    update_effect_jump(board, sq, was, now, Side::Hum, hum);
    update_effect_jump(board, sq, was, now, Side::Com, com);
}

} // verus!
