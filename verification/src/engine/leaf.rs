//! The evaluation of the position after a candidate move of COM.

use vstd::prelude::*;
use crate::shogi::{Side, Square};
use crate::piece::{Piece, PieceKind};
use crate::moves::{UndoableMove, piece_value_ok};
use crate::position::Position;
use crate::naitou::{
    naitou_piece_price_a, naitou_piece_price_b, naitou_piece_price_d, price_a, price_b, price_d,
};
use crate::movegen::general::{can_evade, position_is_checkmated_naitou};
use crate::attack::attack_count;
use crate::engine::eval::{
    RootEvaluation, adv_upto, disadv_upto, advantage_squares, disadvantage_squares,
    count_promoted, promoted_count,
};

verus! {

/// The evaluation of the position after a candidate move of COM.
#[derive(Clone, Copy, Debug, PartialEq, Eq, Hash)]
pub struct LeafEvaluation {
    /// The price of what the candidate captures, as revised.
    pub capture_price: u8,
    /// The highest price of a piece of HUM on an advantage square, as
    /// revised.
    pub adv_price: u8,
    /// The advantage square of that piece.
    pub adv_sq: Option<Square>,
    /// The highest price of a piece of COM on a disadvantage square, as
    /// revised.
    pub disadv_price: u8,
    /// The disadvantage square of that piece.
    pub disadv_sq: Option<Square>,
    /// The sum of the prices of HUM's pieces on advantage squares, as
    /// revised.
    pub score_posi: u8,
    /// The sum of the prices of COM's pieces on disadvantage squares, as
    /// revised.
    pub score_nega: u8,
    /// The sum of COM's attack counts within distance 2 of HUM's king at
    /// the root.
    pub hum_king_threat_around25: u8,
    /// The sum of COM's attack counts within distance 2 of COM's king at
    /// the root.
    pub com_king_safety_around25: u8,
    /// The sum of HUM's attack counts within distance 2 of COM's king at
    /// the root.
    pub com_king_threat_around25: u8,
    /// The sum of HUM's attack counts on the neighbours of COM's king at
    /// the root.
    pub com_king_threat_around8: u8,
    /// The number of neighbours of COM's king at the root on which HUM's
    /// attack count is at least COM's.
    pub com_king_choke_count_around8: u8,
    /// The distance from the origin of the candidate (its destination, for
    /// a drop) to COM's king at the root.
    pub src_to_com_king: u8,
    /// The distance from the destination of the candidate to HUM's king at
    /// the root.
    pub dst_to_hum_king: u8,
    /// Whether a pawn or lance of HUM hangs over COM's camp.
    pub hum_hanging: bool,
    /// The number of promoted pieces of COM.
    pub com_promo_count: u8,
    /// The number of pieces of COM, pawns, lances, knights and the king
    /// left out, that COM does not defend.
    pub com_loose_count: u8,
    /// Whether HUM is checkmated.
    pub hum_is_checkmated: bool,
    /// Whether COM's king is attacked after the candidate.
    pub is_suicide: bool,
}

/// The sum of `a` and `b`, wrapping at 256.
pub open spec fn wadd(a: u8, b: u8) -> u8 {
    if a + b > 255 {
        (a + b - 256) as u8
    } else {
        (a + b) as u8
    }
}

/// The difference of `a` and `b`, wrapping at 256.
pub open spec fn wsub(a: u8, b: u8) -> u8 {
    if a - b < 0 {
        (a - b + 256) as u8
    } else {
        (a - b) as u8
    }
}

/// The price of what `umv` captured, 0 when it captured nothing.
pub open spec fn capture_price_of(umv: UndoableMove) -> u8 {
    if umv.spec_piece_captured() == Piece::NoPiece {
        0
    } else {
        price_a(umv.spec_piece_captured().spec_kind()) as u8
    }
}

/// The sum, wrapping at 256, of the prices in table B of the first `n`
/// entries.
pub open spec fn posi_upto(list: Seq<(Square, PieceKind)>, n: int) -> u8
    decreases n,
{
    if n <= 0 {
        0
    } else {
        wadd(posi_upto(list, n - 1), price_b(list[n - 1].1) as u8)
    }
}

/// The highest price in table B among the first `n` entries and the first
/// square that has it; 0 and no square when there is no entry.
pub open spec fn adv_best_upto(list: Seq<(Square, PieceKind)>, n: int) -> (u8, Option<Square>)
    decreases n,
{
    if n <= 0 {
        (0, None)
    } else {
        let rest = adv_best_upto(list, n - 1);
        let p = price_b(list[n - 1].1) as u8;
        if rest.0 < p {
            (p, Some(list[n - 1].0))
        } else {
            rest
        }
    }
}

/// The sum, wrapping at 256, of the prices in table D of the first `n`
/// entries, less 1 for each entry at which the exchange flag stands.
pub open spec fn nega_upto(list: Seq<(Square, PieceKind, bool)>, n: int) -> u8
    decreases n,
{
    if n <= 0 {
        0
    } else {
        let s = wadd(nega_upto(list, n - 1), price_d(list[n - 1].1) as u8);
        if list[n - 1].2 {
            wsub(s, 1)
        } else {
            s
        }
    }
}

/// The disadvantage price after the first `n` entries and the square that
/// last raised it: each entry raises the price to its own in table D if that
/// is higher, and then takes 1 away if the exchange flag stands.
pub open spec fn disadv_best_upto(list: Seq<(Square, PieceKind, bool)>, n: int) -> (
    u8,
    Option<Square>,
)
    decreases n,
{
    if n <= 0 {
        (0, None)
    } else {
        let rest = disadv_best_upto(list, n - 1);
        let p = price_d(list[n - 1].1) as u8;
        let m = if rest.0 < p { (p, Some(list[n - 1].0)) } else { rest };
        if list[n - 1].2 {
            (wsub(m.0, 1), m.1)
        } else {
            m
        }
    }
}

/// Whether one of the first `n` entries is the square `dst`.
pub open spec fn lands_on(list: Seq<(Square, PieceKind, bool)>, dst: Square, n: int) -> bool
    decreases n,
{
    if n <= 0 {
        false
    } else {
        lands_on(list, dst, n - 1) || list[n - 1].0 == dst
    }
}

/// The sum, wrapping at 256, of the counts on those of the first `n`
/// squares whose distance from `k` lies between `lo` and `hi`.
pub open spec fn near_sum(counts: Seq<u8>, k: Square, lo: int, hi: int, n: int) -> u8
    decreases n,
{
    if n <= 0 {
        0
    } else {
        let rest = near_sum(counts, k, lo, hi, n - 1);
        let d = k.dist(Square((n - 1) as i32));
        if lo <= d <= hi {
            wadd(rest, counts[n - 1])
        } else {
            rest
        }
    }
}

/// The number of those among the first `n` squares at distance 1 from `k`
/// on which HUM's count is at least COM's.
pub open spec fn choke_count(hum: Seq<u8>, com: Seq<u8>, k: Square, n: int) -> int
    decreases n,
{
    if n <= 0 {
        0
    } else {
        choke_count(hum, com, k, n - 1) + (if k.dist(Square((n - 1) as i32)) == 1 && hum[n - 1]
            >= com[n - 1] {
            1int
        } else {
            0int
        })
    }
}

/// Whether a pawn or lance of HUM on square `s` hangs: it stands on one of
/// the ranks 1 to 4, and on the square before it in the numbering HUM's
/// count exceeds COM's.
pub open spec fn hangs(pos: Position, s: int) -> bool {
    &&& (pos.board@[s] == Piece::HPawn || pos.board@[s] == Piece::HLance)
    &&& s % 9 <= 3
    &&& s != 0
    &&& s != 63
    &&& pos.effect(Side::Hum, s - 1) > pos.effect(Side::Com, s - 1)
}

/// Whether a pawn or lance of HUM on one of the first `n` squares hangs.
pub open spec fn hanging_upto(pos: Position, n: int) -> bool
    decreases n,
{
    if n <= 0 {
        false
    } else {
        hanging_upto(pos, n - 1) || hangs(pos, n - 1)
    }
}

/// Whether square `q` holds a piece of COM, no pawn, lance, knight or king,
/// that COM does not defend.
pub open spec fn is_loose(pos: Position, q: int) -> bool {
    let pc = pos.board@[q];
    pc.is_of(Side::Com) && pc.spec_kind() != PieceKind::Pawn && pc.spec_kind() != PieceKind::Lance
        && pc.spec_kind() != PieceKind::Knight && pc.spec_kind() != PieceKind::King && pos.effect(
        Side::Com,
        q,
    ) == 0
}

/// The number of loose pieces of COM on the first `n` squares.
pub open spec fn loose_count(pos: Position, n: int) -> int
    decreases n,
{
    if n <= 0 {
        0
    } else {
        loose_count(pos, n - 1) + (if is_loose(pos, n - 1) {
            1int
        } else {
            0int
        })
    }
}

/// The evaluation of position `pos`, reached by the candidate `umv`, or
/// nothing when the candidate is rejected.
///
/// A candidate is rejected when it is a pawn drop that mates, and when it
/// puts a piece on a disadvantage square without capturing, unless the root
/// was already answering a check or the candidate mates.
pub open spec fn leaf_of(pos: Position, level: u8, root: RootEvaluation, umv: UndoableMove) -> Option<
    LeafEvaluation,
> {
    let hum_king = root.king_sq@[0];
    let com_king = root.king_sq@[1];
    let capture_price = capture_price_of(umv);
    let adv = adv_scan(pos, level);
    let dis = disadv_scan(pos, umv.spec_dst());
    let sacrifice = capture_price == 0 && dis.3;
    let mated = dis.1 < 30 && adv.1 >= 30 && umv.spec_dst().dist(hum_king) < 3 && !can_evade(
        pos,
        true,
    );
    if mated && umv.spec_is_drop() && umv.dropped() == PieceKind::Pawn {
        None
    } else if sacrifice && root.disadv_price < 30 && !mated {
        None
    } else {
        Some(
            with_surroundings(
                pos,
                root,
                LeafEvaluation {
                    capture_price: if mated { 60 } else { capture_price },
                    adv_price: if mated { 60 } else { adv.1 },
                    adv_sq: adv.2,
                    disadv_price: if mated { 0 } else { dis.1 },
                    disadv_sq: dis.2,
                    score_posi: adv.0,
                    score_nega: dis.0,
                    hum_king_threat_around25: 0,
                    com_king_safety_around25: 0,
                    com_king_threat_around25: 0,
                    com_king_threat_around8: 0,
                    com_king_choke_count_around8: 0,
                    src_to_com_king: (if umv.spec_is_drop() {
                        umv.spec_dst().dist(com_king)
                    } else {
                        umv.spec_src().dist(com_king)
                    }) as u8,
                    dst_to_hum_king: umv.spec_dst().dist(hum_king) as u8,
                    hum_hanging: false,
                    com_promo_count: 0,
                    com_loose_count: 0,
                    hum_is_checkmated: mated,
                    is_suicide: false,
                },
            ),
        )
    }
}

impl LeafEvaluation {
    /// The evaluation from which the evaluation of a candidate starts:
    /// everything is 0, false or none.
    pub fn new() -> (r: LeafEvaluation)
        ensures
            r == (LeafEvaluation {
                capture_price: 0,
                adv_price: 0,
                adv_sq: None,
                disadv_price: 0,
                disadv_sq: None,
                score_posi: 0,
                score_nega: 0,
                hum_king_threat_around25: 0,
                com_king_safety_around25: 0,
                com_king_threat_around25: 0,
                com_king_threat_around8: 0,
                com_king_choke_count_around8: 0,
                src_to_com_king: 0,
                dst_to_hum_king: 0,
                hum_hanging: false,
                com_promo_count: 0,
                com_loose_count: 0,
                hum_is_checkmated: false,
                is_suicide: false,
            }),
    {
        LeafEvaluation {
            capture_price: 0,
            adv_price: 0,
            adv_sq: None,
            disadv_price: 0,
            disadv_sq: None,
            score_posi: 0,
            score_nega: 0,
            hum_king_threat_around25: 0,
            com_king_safety_around25: 0,
            com_king_threat_around25: 0,
            com_king_threat_around8: 0,
            com_king_choke_count_around8: 0,
            src_to_com_king: 0,
            dst_to_hum_king: 0,
            hum_hanging: false,
            com_promo_count: 0,
            com_loose_count: 0,
            hum_is_checkmated: false,
            is_suicide: false,
        }
    }

    /// The worst evaluation, as a specification.
    pub open spec fn worst_spec() -> LeafEvaluation {
        LeafEvaluation {
            capture_price: 0,
            adv_price: 0,
            adv_sq: None,
            disadv_price: 99,
            disadv_sq: None,
            score_posi: 0,
            score_nega: 99,
            hum_king_threat_around25: 0,
            com_king_safety_around25: 0,
            com_king_threat_around25: 99,
            com_king_threat_around8: 99,
            com_king_choke_count_around8: 99,
            src_to_com_king: 0,
            dst_to_hum_king: 99,
            hum_hanging: true,
            com_promo_count: 0,
            com_loose_count: 99,
            hum_is_checkmated: false,
            is_suicide: false,
        }
    }

    /// The worst evaluation, which the search starts from: every
    /// candidate that is not rejected should be better.
    pub fn worst() -> (r: LeafEvaluation)
        ensures
            r == LeafEvaluation::worst_spec(),
    {
        LeafEvaluation {
            capture_price: 0,
            adv_price: 0,
            adv_sq: None,
            disadv_price: 99,
            disadv_sq: None,
            score_posi: 0,
            score_nega: 99,
            hum_king_threat_around25: 0,
            com_king_safety_around25: 0,
            com_king_threat_around25: 99,
            com_king_threat_around8: 99,
            com_king_choke_count_around8: 99,
            src_to_com_king: 0,
            dst_to_hum_king: 99,
            hum_hanging: true,
            com_promo_count: 0,
            com_loose_count: 99,
            hum_is_checkmated: false,
            is_suicide: false,
        }
    }
}

/// The sum, wrapping at 256, of the counts of `side` on the squares whose
/// distance from `k` lies between `lo` and `hi`.
pub fn sum_near(pos: &Position, side: Side, k: Square, lo: u8, hi: u8) -> (r: u8)
    requires
        k.on_board(),
    ensures
        r == near_sum(pos.effect_counts@[side.index()]@, k, lo as int, hi as int, 81),
{
    let mut acc: u8 = 0;
    let mut q: usize = 0;
    while q < 81
        invariant
            q <= 81,
            k.on_board(),
            acc == near_sum(pos.effect_counts@[side.index()]@, k, lo as int, hi as int, q as int),
        decreases 81 - q,
    {
        let sq: Square = Square(q as i32);
        let d: u8 = k.distance(sq);
        if lo <= d && d <= hi {
            acc = acc.wrapping_add(pos.effect_count(side, sq));
        }
        q += 1;
    }
    acc
}

/// The number of neighbours of `k` on which HUM's count is at least COM's.
pub fn count_choke(pos: &Position, k: Square) -> (r: u8)
    requires
        k.on_board(),
    ensures
        r == choke_count(pos.effect_counts@[0]@, pos.effect_counts@[1]@, k, 81),
        r <= 81,
{
    let mut n: u8 = 0;
    let mut q: usize = 0;
    while q < 81
        invariant
            q <= 81,
            k.on_board(),
            n == choke_count(pos.effect_counts@[0]@, pos.effect_counts@[1]@, k, q as int),
            n <= q,
        decreases 81 - q,
    {
        let sq: Square = Square(q as i32);
        if k.distance(sq) == 1 && pos.effect_count(Side::Hum, sq) >= pos.effect_count(Side::Com, sq) {
            n = n + 1;
        }
        q += 1;
    }
    n
}

/// Whether a pawn or lance of HUM hangs over COM's camp.
pub fn any_hanging(pos: &Position) -> (r: bool)
    ensures
        r == hanging_upto(*pos, 81),
{
    let mut found: bool = false;
    let mut s: usize = 0;
    while s < 81
        invariant
            s <= 81,
            found == hanging_upto(*pos, s as int),
        decreases 81 - s,
    {
        let pc: Piece = pos.board().get(Square(s as i32));
        if (pc == Piece::HPawn || pc == Piece::HLance) && s % 9 <= 3 && s != 0 && s != 63 {
            let t: Square = Square((s - 1) as i32);
            if pos.effect_count(Side::Hum, t) > pos.effect_count(Side::Com, t) {
                found = true;
            }
        }
        s += 1;
    }
    found
}

/// The number of loose pieces of COM.
pub fn count_loose(pos: &Position) -> (r: u8)
    ensures
        r == loose_count(*pos, 81),
        r <= 81,
{
    let mut n: u8 = 0;
    let mut q: usize = 0;
    while q < 81
        invariant
            q <= 81,
            n == loose_count(*pos, q as int),
            n <= q,
        decreases 81 - q,
    {
        let sq: Square = Square(q as i32);
        let pc: Piece = pos.board().get(sq);
        if pc.is_piece() && pc.side() == Side::Com {
            let k: u32 = pc.kind().inner();
            if k != 1 && k != 2 && k != 3 && k != 8 && pos.effect_count(Side::Com, sq) == 0 {
                n = n + 1;
            }
        }
        q += 1;
    }
    n
}

/// Whether `umv` can be read as the record of a candidate: its squares lie
/// on the board and its piece fields hold pieces.
pub open spec fn readable(umv: UndoableMove) -> bool {
    &&& umv.spec_dst().on_board()
    &&& piece_value_ok(umv.captured_field())
    &&& piece_value_ok(umv.src_piece_field())
    &&& if umv.spec_is_drop() {
        1 <= umv.from_field() <= 7
    } else {
        umv.spec_src().on_board() && (umv.spec_is_promotion() ==> umv.spec_piece_src().spec_is_promotable())
    }
}

/// The sum of the prices of the advantage squares, the highest price among
/// them, and the first square that has it.
pub open spec fn adv_scan(pos: Position, level: u8) -> (u8, u8, Option<Square>) {
    let adv = adv_upto(pos, level, 81);
    let best = adv_best_upto(adv, adv.len() as int);
    (posi_upto(adv, adv.len() as int), best.0, best.1)
}

/// The sum of the prices of the disadvantage squares, the disadvantage
/// price, its square, and whether `dst` is a disadvantage square.
pub open spec fn disadv_scan(pos: Position, dst: Square) -> (u8, u8, Option<Square>, bool) {
    let dis = disadv_upto(pos, 81);
    let best = disadv_best_upto(dis, dis.len() as int);
    (nega_upto(dis, dis.len() as int), best.0, best.1, lands_on(dis, dst, dis.len() as int))
}

/// Scans the advantage squares.
pub fn scan_advantage(pos: &Position, level: u8) -> (r: (u8, u8, Option<Square>))
    requires
        pos.wf(),
    ensures
        r == adv_scan(*pos, level),
        r.2.is_some() ==> r.2.unwrap().on_board(),
{
    let adv: Vec<(Square, PieceKind)> = advantage_squares(pos, level);
    let mut score_posi: u8 = 0;
    let mut adv_price: u8 = 0;
    let mut adv_sq: Option<Square> = None;
    let mut i: usize = 0;
    while i < adv.len()
        invariant
            i <= adv@.len(),
            score_posi == posi_upto(adv@, i as int),
            (adv_price, adv_sq) == adv_best_upto(adv@, i as int),
            adv_sq.is_some() ==> adv_sq.unwrap().on_board(),
            forall|k: int| 0 <= k < adv@.len() ==> (#[trigger] adv@[k]).0.on_board(),
        decreases adv@.len() - i,
    {
        let (sq, pk) = adv[i];
        let price: u8 = naitou_piece_price_b(pk);
        score_posi = score_posi.wrapping_add(price);
        if adv_price < price {
            adv_price = price;
            adv_sq = Some(sq);
        }
        i += 1;
    }
    (score_posi, adv_price, adv_sq)
}

/// Scans the disadvantage squares.
pub fn scan_disadvantage(pos: &Position, dst: Square) -> (r: (u8, u8, Option<Square>, bool))
    requires
        pos.wf(),
    ensures
        r == disadv_scan(*pos, dst),
        r.2.is_some() ==> r.2.unwrap().on_board(),
{
    let dis: Vec<(Square, PieceKind, bool)> = disadvantage_squares(pos);
    let mut lands: bool = false;
    let mut score_nega: u8 = 0;
    let mut disadv_price: u8 = 0;
    let mut disadv_sq: Option<Square> = None;
    let mut j: usize = 0;
    while j < dis.len()
        invariant
            j <= dis@.len(),
            score_nega == nega_upto(dis@, j as int),
            (disadv_price, disadv_sq) == disadv_best_upto(dis@, j as int),
            lands == lands_on(dis@, dst, j as int),
            disadv_sq.is_some() ==> disadv_sq.unwrap().on_board(),
            forall|k: int| 0 <= k < dis@.len() ==> (#[trigger] dis@[k]).0.on_board(),
        decreases dis@.len() - j,
    {
        let (sq, pk, exchange) = dis[j];
        if dst == sq {
            lands = true;
        }
        let price: u8 = naitou_piece_price_d(pk);
        score_nega = score_nega.wrapping_add(price);
        if disadv_price < price {
            disadv_price = price;
            disadv_sq = Some(sq);
        }
        if exchange {
            score_nega = score_nega.wrapping_sub(1);
            disadv_price = disadv_price.wrapping_sub(1);
        }
        j += 1;
    }
    (score_nega, disadv_price, disadv_sq, lands)
}

/// The parts of a leaf evaluation that look at the kings' surroundings and
/// at loose and promoted pieces; the other fields are left as in `leaf`.
pub open spec fn with_surroundings(pos: Position, root: RootEvaluation, leaf: LeafEvaluation) -> LeafEvaluation {
    let hum_king = root.king_sq@[0];
    let com_king = root.king_sq@[1];
    LeafEvaluation {
        hum_king_threat_around25: near_sum(pos.effect_counts@[1]@, hum_king, 0, 2, 81),
        com_king_safety_around25: near_sum(pos.effect_counts@[1]@, com_king, 0, 2, 81),
        com_king_threat_around25: near_sum(pos.effect_counts@[0]@, com_king, 0, 2, 81),
        com_king_threat_around8: near_sum(pos.effect_counts@[0]@, com_king, 1, 1, 81),
        com_king_choke_count_around8: choke_count(
            pos.effect_counts@[0]@,
            pos.effect_counts@[1]@,
            com_king,
            81,
        ) as u8,
        hum_hanging: hanging_upto(pos, 81),
        com_promo_count: count_promoted(pos.board@, Side::Com, 81) as u8,
        com_loose_count: loose_count(pos, 81) as u8,
        is_suicide: attack_count(pos.board@, Side::Hum, pos.king(Side::Com).0 as int) > 0,
        ..leaf
    }
}

/// Fills in the parts of a leaf evaluation that look at the kings'
/// surroundings and at loose and promoted pieces.
pub fn fill_surroundings(pos: &Position, root: &RootEvaluation, leaf: LeafEvaluation) -> (r:
    LeafEvaluation)
    requires
        pos.wf(),
        root.king_sq@[0].on_board(),
        root.king_sq@[1].on_board(),
    ensures
        r == with_surroundings(*pos, *root, leaf),
        r.adv_sq == leaf.adv_sq,
        r.disadv_sq == leaf.disadv_sq,
{
    let hum_king_sq: Square = root.king_sq[0];
    let com_king_sq: Square = root.king_sq[1];
    proof {
        crate::attack::lemma_attack_count_bound(pos.board@, Side::Hum, pos.king(Side::Com).0 as int);
    }
    let mut r: LeafEvaluation = leaf;
    r.hum_king_threat_around25 = sum_near(pos, Side::Com, hum_king_sq, 0, 2);
    r.com_king_safety_around25 = sum_near(pos, Side::Com, com_king_sq, 0, 2);
    r.com_king_threat_around25 = sum_near(pos, Side::Hum, com_king_sq, 0, 2);
    r.com_king_threat_around8 = sum_near(pos, Side::Hum, com_king_sq, 1, 1);
    r.com_king_choke_count_around8 = count_choke(pos, com_king_sq);
    r.hum_hanging = any_hanging(pos);
    r.com_loose_count = count_loose(pos);
    r.com_promo_count = promoted_count(pos.board(), Side::Com) as u8;
    r.is_suicide = pos.is_checked(Side::Com);
    r
}

/// The evaluation of the position reached by the candidate `umv`, or
/// nothing when the candidate is rejected.  The position is left as it
/// was.
pub fn leaf_evaluation(pos: &mut Position, level: u8, root: &RootEvaluation, umv: UndoableMove) -> (r:
    Option<LeafEvaluation>)
    requires
        old(pos).wf(),
        readable(umv),
        root.king_sq@[0].on_board(),
        root.king_sq@[1].on_board(),
    ensures
        *final(pos) == *old(pos),
        r == leaf_of(*old(pos), level, *root, umv),
        r.is_some() ==> (r.unwrap().adv_sq.is_some() ==> r.unwrap().adv_sq.unwrap().on_board()) && (
        r.unwrap().disadv_sq.is_some() ==> r.unwrap().disadv_sq.unwrap().on_board()),
{
    let hum_king_sq: Square = root.king_sq[0];
    let com_king_sq: Square = root.king_sq[1];
    let pc: Piece = umv.piece_captured();
    let capture_price: u8 = if pc == Piece::NoPiece { 0 } else { naitou_piece_price_a(pc.kind()) };
    let dst: Square = umv.dst();
    let (score_posi, adv_price, adv_sq) = scan_advantage(pos, level);
    let (score_nega, disadv_price, disadv_sq, lands) = scan_disadvantage(pos, dst);
    let sacrifice: bool = capture_price == 0 && lands;
    let dist_hum: u8 = dst.distance(hum_king_sq);
    let mated: bool = disadv_price < 30 && adv_price >= 30 && dist_hum < 3
        && position_is_checkmated_naitou(pos);
    if mated && umv.is_drop() && umv.dropped_piece_kind() == PieceKind::Pawn {
        return None;
    }
    if sacrifice && root.disadv_price < 30 && !mated {
        return None;
    }
    let src_to_com_king: u8 = if umv.is_drop() {
        dst.distance(com_king_sq)
    } else {
        umv.src().distance(com_king_sq)
    };
    let mut leaf: LeafEvaluation = LeafEvaluation::new();
    leaf.capture_price = if mated { 60 } else { capture_price };
    leaf.adv_price = if mated { 60 } else { adv_price };
    leaf.adv_sq = adv_sq;
    leaf.disadv_price = if mated { 0 } else { disadv_price };
    leaf.disadv_sq = disadv_sq;
    leaf.score_posi = score_posi;
    leaf.score_nega = score_nega;
    leaf.src_to_com_king = src_to_com_king;
    leaf.dst_to_hum_king = dist_hum;
    leaf.hum_is_checkmated = mated;
    Some(fill_surroundings(pos, root, leaf))
}

} // verus!
