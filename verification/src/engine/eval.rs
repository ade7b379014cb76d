//! What the engine sees in a position: the squares where material can be
//! won or lost, and the evaluation of the position before any candidate is
//! tried.

use vstd::prelude::*;
use crate::shogi::{Side, Square};
use crate::piece::{Piece, PieceKind};
use crate::board::{Board, Hand};
use crate::position::Position;
use crate::naitou::{
    attacker_kind, naitou_attacker, naitou_piece_price_b, naitou_piece_price_c,
    naitou_piece_price_d, naitou_squares, price_b, price_c, price_d, scan_square,
};

verus! {

/// The evaluation of the position in which COM is to move, before any
/// candidate is tried.
#[derive(Clone, Copy, Debug, PartialEq, Eq, Hash)]
pub struct RootEvaluation {
    /// The highest price of a piece of HUM on an advantage square.
    pub adv_price: u8,
    /// The highest price of a piece of COM on a disadvantage square, as
    /// lowered by the exchange flag.
    pub disadv_price: u8,
    /// The power of HUM: 8 for each rook and bishop in hand and each
    /// promoted piece, 4 for each gold and silver in hand, 2 for each knight
    /// and lance in hand, 1 for each pawn in hand, and the ply factor.
    pub power_hum: u8,
    /// The power of COM, counted in the same way.
    pub power_com: u8,
    /// The rooks and bishops that COM holds in hand and its promoted
    /// pieces.
    pub rbp_com: u8,
    /// The king squares of HUM and COM.
    pub king_sq: [Square; 2],
}

/// Whether square `q` is an advantage square: it holds a piece of HUM that
/// COM attacks, and either HUM does not defend it, or COM's cheapest
/// attacker is cheaper than the piece (or as cheap, once the progress level
/// is not 0).
pub open spec fn is_adv(pos: Position, level: u8, q: int) -> bool {
    let pc = pos.board@[q];
    &&& pc.is_of(Side::Hum)
    &&& pos.effect(Side::Com, q) != 0
    &&& (pos.effect(Side::Hum, q) == 0 || {
        let atk = price_b(attacker_kind(pos, Side::Com, Square(q as i32)));
        let own = price_b(pc.spec_kind());
        atk < own || (atk == own && level != 0)
    })
}

/// The advantage squares among the first `n` squares of the scan, each with
/// the kind of the piece of HUM on it.
pub open spec fn adv_upto(pos: Position, level: u8, n: int) -> Seq<(Square, PieceKind)>
    decreases n,
{
    if n <= 0 {
        Seq::empty()
    } else {
        let sq = scan_square(n - 1);
        let rest = adv_upto(pos, level, n - 1);
        if is_adv(pos, level, sq.0 as int) {
            rest.push((sq, pos.board@[sq.0 as int].spec_kind()))
        } else {
            rest
        }
    }
}

/// How square `q` counts as a disadvantage square: 0 when it does not, 1
/// when it does, 2 when it does and raises the exchange flag.
///
/// The square must hold a piece of COM that HUM attacks.  A king counts, and
/// so does a piece that COM does not defend.  When COM defends with fewer
/// attacks than HUM has, the piece counts if its price and that of COM's
/// cheapest attacker together reach the price of HUM's cheapest attacker
/// (the sum wraps at 256).  When COM defends with at least as many attacks,
/// the piece counts if it is dearer than HUM's cheapest attacker, and then
/// the exchange flag is raised.
pub open spec fn disadv_class(pos: Position, q: int) -> int {
    let pc = pos.board@[q];
    if !pc.is_of(Side::Com) || pos.effect(Side::Hum, q) == 0 {
        0
    } else if pc.spec_kind() == PieceKind::King || pos.effect(Side::Com, q) == 0 {
        1
    } else {
        let own = price_d(pc.spec_kind());
        let atk_hum = price_c(attacker_kind(pos, Side::Hum, Square(q as i32)));
        let atk_com = price_d(attacker_kind(pos, Side::Com, Square(q as i32)));
        if pos.effect(Side::Com, q) < pos.effect(Side::Hum, q) {
            if (own + atk_com) % 256 >= atk_hum {
                1
            } else {
                0
            }
        } else if own > atk_hum {
            2
        } else {
            0
        }
    }
}

/// The exchange flag after the first `n` squares of the scan: raised once
/// a square has raised it.
pub open spec fn exchange_upto(pos: Position, n: int) -> bool
    decreases n,
{
    if n <= 0 {
        false
    } else {
        exchange_upto(pos, n - 1) || disadv_class(pos, scan_square(n - 1).0 as int) == 2
    }
}

/// The disadvantage squares among the first `n` squares of the scan, each
/// with the kind of the piece of COM on it and the exchange flag as it
/// stands after the square.
pub open spec fn disadv_upto(pos: Position, n: int) -> Seq<(Square, PieceKind, bool)>
    decreases n,
{
    if n <= 0 {
        Seq::empty()
    } else {
        let sq = scan_square(n - 1);
        let rest = disadv_upto(pos, n - 1);
        if disadv_class(pos, sq.0 as int) != 0 {
            rest.push((sq, pos.board@[sq.0 as int].spec_kind(), exchange_upto(pos, n)))
        } else {
            rest
        }
    }
}

/// The highest price in table B among the first `n` entries, 0 when there
/// is none.
pub open spec fn adv_price_upto(list: Seq<(Square, PieceKind)>, n: int) -> int
    decreases n,
{
    if n <= 0 {
        0
    } else {
        let rest = adv_price_upto(list, n - 1);
        let p = price_b(list[n - 1].1);
        if rest < p {
            p
        } else {
            rest
        }
    }
}

/// The disadvantage price after the first `n` entries: each entry raises it
/// to its price in table D if that is higher, and then takes 1 away if the
/// exchange flag stands.
pub open spec fn disadv_price_upto(list: Seq<(Square, PieceKind, bool)>, n: int) -> int
    decreases n,
{
    if n <= 0 {
        0
    } else {
        let rest = disadv_price_upto(list, n - 1);
        let p = price_d(list[n - 1].1);
        let m = if rest < p { p } else { rest };
        if list[n - 1].2 {
            m - 1
        } else {
            m
        }
    }
}

/// The number of promoted pieces of `s` on the first `n` squares.
pub open spec fn count_promoted(b: Seq<Piece>, s: Side, n: int) -> int
    decreases n,
{
    if n <= 0 {
        0
    } else {
        count_promoted(b, s, n - 1) + (if b[n - 1].is_of(s) && b[n - 1].spec_is_promoted() {
            1int
        } else {
            0int
        })
    }
}

/// The ply factor: a eleventh of the progress ply, doubled from 7 on.
pub open spec fn ply_factor(progress_ply: u8) -> int {
    let f = progress_ply as int / 11;
    if f >= 7 {
        2 * f
    } else {
        f
    }
}

/// The power of a side with `rbp` rooks, bishops and promoted pieces and
/// the given hand.
pub open spec fn power(rbp: int, hand: Hand, progress_ply: u8) -> int {
    (8 * rbp + 4 * (hand.count(PieceKind::Gold) + hand.count(PieceKind::Silver)) + 2 * (hand.count(
        PieceKind::Knight,
    ) + hand.count(PieceKind::Lance)) + hand.count(PieceKind::Pawn) + ply_factor(progress_ply))
        % 256
}

/// The evaluation of position `pos`, with COM to move, at the given
/// progress.
pub open spec fn root_of(pos: Position, progress_ply: u8, level: u8) -> RootEvaluation {
    let adv = adv_upto(pos, level, 81);
    let dis = disadv_upto(pos, 81);
    let hum = pos.hands.of(Side::Hum);
    let com = pos.hands.of(Side::Com);
    let rbp_hum = count_promoted(pos.board@, Side::Hum, 81) + hum.count(PieceKind::Rook) + hum.count(
        PieceKind::Bishop,
    );
    let rbp_com = (count_promoted(pos.board@, Side::Com, 81) + com.count(PieceKind::Rook)
        + com.count(PieceKind::Bishop)) % 256;
    RootEvaluation {
        adv_price: adv_price_upto(adv, adv.len() as int) as u8,
        disadv_price: disadv_price_upto(dis, dis.len() as int) as u8,
        power_hum: power(rbp_hum, hum, progress_ply) as u8,
        power_com: power(rbp_com, com, progress_ply) as u8,
        rbp_com: rbp_com as u8,
        king_sq: pos.king_sq,
    }
}

/// The prices of the first `n` entries lie between 0 and 40.
pub proof fn lemma_adv_price_bound(list: Seq<(Square, PieceKind)>, n: int)
    requires
        0 <= n <= list.len(),
        forall|i: int| 0 <= i < list.len() ==> (#[trigger] list[i]).1.spec_is_piece(),
    ensures
        0 <= adv_price_upto(list, n) <= 40,
        n > 0 ==> adv_price_upto(list, n) >= 1,
    decreases n,
{
    if n > 0 {
        lemma_adv_price_bound(list, n - 1);
        assert(list[n - 1].1.spec_is_piece());
    }
}

/// The disadvantage price of the first `n` entries lies between 0 and 40.
pub proof fn lemma_disadv_price_bound(list: Seq<(Square, PieceKind, bool)>, n: int)
    requires
        0 <= n <= list.len(),
        forall|i: int| 0 <= i < list.len() ==> (#[trigger] list[i]).1.spec_is_piece(),
    ensures
        0 <= disadv_price_upto(list, n) <= 40,
    decreases n,
{
    if n > 0 {
        lemma_disadv_price_bound(list, n - 1);
        assert(list[n - 1].1.spec_is_piece());
    }
}

/// The advantage squares in the order of the scan, each with the kind of
/// the piece of HUM on it.
pub fn advantage_squares(pos: &Position, level: u8) -> (r: Vec<(Square, PieceKind)>)
    requires
        pos.wf(),
    ensures
        r@ == adv_upto(*pos, level, 81),
        forall|i: int| 0 <= i < r@.len() ==> (#[trigger] r@[i]).1.spec_is_piece() && r@[i].0.on_board(),
{
    let sqs: Vec<Square> = naitou_squares();
    let mut v: Vec<(Square, PieceKind)> = Vec::new();
    let mut n: usize = 0;
    while n < 81
        invariant
            n <= 81,
            pos.wf(),
            sqs@.len() == 81,
            forall|k: int| 0 <= k < 81 ==> #[trigger] sqs@[k] == scan_square(k) && sqs@[k].on_board(),
            v@ == adv_upto(*pos, level, n as int),
            forall|i: int| 0 <= i < v@.len() ==> (#[trigger] v@[i]).1.spec_is_piece() && v@[i].0.on_board(),
        decreases 81 - n,
    {
        let sq: Square = sqs[n];
        let pc: Piece = pos.board().get(sq);
        if pc.is_piece() && pc.side() == Side::Hum && pos.effect_count(Side::Com, sq) != 0 {
            let pk: PieceKind = pc.kind();
            let adv: bool = if pos.effect_count(Side::Hum, sq) == 0 {
                true
            } else {
                let atk_com: PieceKind = naitou_attacker(pos, Side::Com, sq);
                let price_pc_hum: u8 = naitou_piece_price_b(pk);
                let price_atk_com: u8 = naitou_piece_price_b(atk_com);
                price_atk_com < price_pc_hum || (price_atk_com == price_pc_hum && level != 0)
            };
            if adv {
                v.push((sq, pk));
            }
        }
        n += 1;
    }
    v
}

/// The disadvantage squares in the order of the scan, each with the kind of
/// the piece of COM on it and the exchange flag as it stands after the
/// square.
pub fn disadvantage_squares(pos: &Position) -> (r: Vec<(Square, PieceKind, bool)>)
    requires
        pos.wf(),
    ensures
        r@ == disadv_upto(*pos, 81),
        forall|i: int| 0 <= i < r@.len() ==> (#[trigger] r@[i]).1.spec_is_piece() && r@[i].0.on_board(),
{
    let sqs: Vec<Square> = naitou_squares();
    let mut v: Vec<(Square, PieceKind, bool)> = Vec::new();
    let mut exchange: bool = false;
    let mut n: usize = 0;
    while n < 81
        invariant
            n <= 81,
            pos.wf(),
            sqs@.len() == 81,
            forall|k: int| 0 <= k < 81 ==> #[trigger] sqs@[k] == scan_square(k) && sqs@[k].on_board(),
            v@ == disadv_upto(*pos, n as int),
            exchange == exchange_upto(*pos, n as int),
            forall|i: int| 0 <= i < v@.len() ==> (#[trigger] v@[i]).1.spec_is_piece() && v@[i].0.on_board(),
        decreases 81 - n,
    {
        let sq: Square = sqs[n];
        let pc: Piece = pos.board().get(sq);
        if pc.is_piece() && pc.side() == Side::Com && pos.effect_count(Side::Hum, sq) != 0 {
            let pk: PieceKind = pc.kind();
            let eff_hum: u8 = pos.effect_count(Side::Hum, sq);
            let eff_com: u8 = pos.effect_count(Side::Com, sq);
            let disadv: bool = if pk.inner() == 8 || eff_com == 0 {
                true
            } else {
                let atk_hum: PieceKind = naitou_attacker(pos, Side::Hum, sq);
                let atk_com: PieceKind = naitou_attacker(pos, Side::Com, sq);
                let price_pc_com: u8 = naitou_piece_price_d(pk);
                let price_atk_hum: u8 = naitou_piece_price_c(atk_hum);
                let price_atk_com: u8 = naitou_piece_price_d(atk_com);
                if eff_com < eff_hum {
                    price_pc_com.wrapping_add(price_atk_com) >= price_atk_hum
                } else if price_pc_com > price_atk_hum {
                    exchange = true;
                    true
                } else {
                    false
                }
            };
            if disadv {
                v.push((sq, pk, exchange));
            }
        }
        n += 1;
    }
    v
}

/// The number of promoted pieces of `side` on the board.
pub fn promoted_count(board: &Board, side: Side) -> (r: u32)
    ensures
        r == count_promoted(board@, side, 81),
        r <= 81,
{
    let mut n: u32 = 0;
    let mut i: usize = 0;
    while i < 81
        invariant
            i <= 81,
            n == count_promoted(board@, side, i as int),
            n <= i,
        decreases 81 - i,
    {
        let pc: Piece = board.get(Square(i as i32));
        if pc.is_piece() && pc.side() == side && pc.is_promoted() {
            n = n + 1;
        }
        i += 1;
    }
    n
}

/// The power of a side with `rbp` rooks, bishops and promoted pieces and
/// the given hand.
pub fn power_of(rbp: u32, hand: &Hand, progress_ply: u8) -> (r: u8)
    requires
        progress_ply <= 100,
    ensures
        r == power(rbp as int, *hand, progress_ply),
{
    let mut factor: u64 = (progress_ply / 11) as u64;
    if factor >= 7 {
        factor = factor * 2;
    }
    let total: u64 = 8 * (rbp as u64) + 4 * (hand.get(PieceKind::Gold) as u64 + hand.get(
        PieceKind::Silver,
    ) as u64) + 2 * (hand.get(PieceKind::Knight) as u64 + hand.get(PieceKind::Lance) as u64)
        + hand.get(PieceKind::Pawn) as u64 + factor;
    (total % 256) as u8
}

/// The evaluation of the position, with COM to move, at the given
/// progress.
pub fn root_evaluation(pos: &Position, progress_ply: u8, level: u8) -> (r: RootEvaluation)
    requires
        pos.wf(),
        progress_ply <= 100,
    ensures
        r == root_of(*pos, progress_ply, level),
        r.adv_price <= 40,
        r.disadv_price <= 40,
{
    let adv: Vec<(Square, PieceKind)> = advantage_squares(pos, level);
    let mut adv_price: u8 = 0;
    let mut i: usize = 0;
    while i < adv.len()
        invariant
            i <= adv@.len(),
            forall|k: int| 0 <= k < adv@.len() ==> (#[trigger] adv@[k]).1.spec_is_piece(),
            adv_price == adv_price_upto(adv@, i as int),
        decreases adv@.len() - i,
    {
        let price: u8 = naitou_piece_price_b(adv[i].1);
        if adv_price < price {
            adv_price = price;
        }
        i += 1;
    }
    let dis: Vec<(Square, PieceKind, bool)> = disadvantage_squares(pos);
    let mut disadv_price: u8 = 0;
    let mut j: usize = 0;
    while j < dis.len()
        invariant
            j <= dis@.len(),
            forall|k: int| 0 <= k < dis@.len() ==> (#[trigger] dis@[k]).1.spec_is_piece(),
            disadv_price == disadv_price_upto(dis@, j as int),
            disadv_price <= 40,
        decreases dis@.len() - j,
    {
        let price: u8 = naitou_piece_price_d(dis[j].1);
        if disadv_price < price {
            disadv_price = price;
        }
        if dis[j].2 {
            disadv_price = disadv_price - 1;
        }
        j += 1;
    }
    proof {
        lemma_adv_price_bound(adv@, adv@.len() as int);
    }
    let hand_hum: Hand = pos.hand(Side::Hum);
    let hand_com: Hand = pos.hand(Side::Com);
    let hum_promo: u32 = promoted_count(pos.board(), Side::Hum);
    let com_promo: u32 = promoted_count(pos.board(), Side::Com);
    let rbp_hum: u64 = hum_promo as u64 + hand_hum.get(PieceKind::Rook) as u64 + hand_hum.get(
        PieceKind::Bishop,
    ) as u64;
    let rbp_com: u8 = ((com_promo as u64 + hand_com.get(PieceKind::Rook) as u64 + hand_com.get(
        PieceKind::Bishop,
    ) as u64) % 256) as u8;
    let power_hum: u8 = power_wide(rbp_hum, &hand_hum, progress_ply);
    let power_com: u8 = power_of(rbp_com as u32, &hand_com, progress_ply);
    RootEvaluation {
        adv_price,
        disadv_price,
        power_hum,
        power_com,
        rbp_com,
        king_sq: pos.king_sq,
    }
}

/// The power of a side whose count of rooks, bishops and promoted pieces
/// may exceed 32 bits.
pub fn power_wide(rbp: u64, hand: &Hand, progress_ply: u8) -> (r: u8)
    requires
        progress_ply <= 100,
        rbp <= 0x3_0000_0000,
    ensures
        r == power(rbp as int, *hand, progress_ply),
{
    let mut factor: u64 = (progress_ply / 11) as u64;
    if factor >= 7 {
        factor = factor * 2;
    }
    let total: u64 = 8 * rbp + 4 * (hand.get(PieceKind::Gold) as u64 + hand.get(PieceKind::Silver) as u64)
        + 2 * (hand.get(PieceKind::Knight) as u64 + hand.get(PieceKind::Lance) as u64) + hand.get(
        PieceKind::Pawn,
    ) as u64 + factor;
    (total % 256) as u8
}

} // verus!
