//! The revisions of a leaf evaluation: a fixed list of adjustments, applied
//! in order, each when its condition holds.  The three scores wrap at 256
//! while the list runs; at the end a score of 128 or more counts as
//! negative and becomes 0.

use vstd::prelude::*;
use crate::shogi::Square;
use crate::piece::PieceKind;
use crate::moves::UndoableMove;
use crate::naitou::naitou_square_distance;
use crate::engine::eval::RootEvaluation;
use crate::engine::leaf::{LeafEvaluation, readable};

verus! {

/// What the revisions need to know of the candidate.
#[derive(Clone, Copy, Debug)]
pub struct MoveFacts {
    /// Whether the candidate is a drop.
    pub is_drop: bool,
    /// The kind of the piece on the destination after the candidate.
    pub pk_dst: PieceKind,
    /// The rank index of the destination.
    pub dst_row: i32,
    /// The distance from the destination to COM's king at the root.
    pub dst_to_com_king: u8,
    /// Whether the candidate captured a piece of HUM from silver to king.
    pub captured_hum_silver_to_king: bool,
    /// Whether the candidate moved a promoted piece.
    pub src_promoted: bool,
    /// For a candidate that is no drop: the distance from its origin to
    /// HUM's king at the root, less that from its destination, wrapping
    /// at 256.
    pub walk_gain: u8,
}

/// What the revisions need to know of the candidate `umv`.
pub open spec fn facts_of(root: RootEvaluation, umv: UndoableMove) -> MoveFacts {
    let dst = umv.spec_dst();
    let captured = umv.spec_piece_captured().value();
    MoveFacts {
        is_drop: umv.spec_is_drop(),
        pk_dst: if umv.spec_is_drop() {
            umv.dropped()
        } else {
            umv.spec_piece_dst().spec_kind()
        },
        dst_row: dst.r() as i32,
        dst_to_com_king: dst.dist8(root.king_sq@[1]),
        captured_hum_silver_to_king: 4 <= captured <= 8,
        src_promoted: !umv.spec_is_drop() && umv.spec_piece_src().spec_is_promoted(),
        walk_gain: if umv.spec_is_drop() {
            0
        } else {
            umv.spec_src().dist8(root.king_sq@[0]).wrapping_sub(dst.dist8(root.king_sq@[0]))
        },
    }
}

/// What the revisions need to know of the candidate `umv`.
pub fn move_facts(root: &RootEvaluation, umv: UndoableMove) -> (r: MoveFacts)
    requires
        readable(umv),
        root.king_sq@[0].on_board(),
        root.king_sq@[1].on_board(),
    ensures
        r == facts_of(*root, umv),
{
    let dst: Square = umv.dst();
    let is_drop: bool = umv.is_drop();
    let captured: u32 = umv.piece_captured().inner();
    MoveFacts {
        is_drop,
        pk_dst: if is_drop {
            umv.dropped_piece_kind()
        } else {
            umv.piece_dst().kind()
        },
        dst_row: dst.row().inner(),
        dst_to_com_king: dst.distance(root.king_sq[1]),
        captured_hum_silver_to_king: 4 <= captured && captured <= 8,
        src_promoted: !is_drop && umv.piece_src().is_promoted(),
        walk_gain: if is_drop {
            0
        } else {
            umv.src().distance(root.king_sq[0]).wrapping_sub(dst.distance(root.king_sq[0]))
        },
    }
}

/// Whether the squares that the evaluations name lie on the board.
pub open spec fn squares_ok(root: RootEvaluation, e: LeafEvaluation) -> bool {
    &&& root.king_sq@[0].on_board()
    &&& root.king_sq@[1].on_board()
    &&& (e.adv_sq.is_some() ==> e.adv_sq.unwrap().on_board())
    &&& (e.disadv_sq.is_some() ==> e.disadv_sq.unwrap().on_board())
}

/// A pawn that captures, while no dear piece of COM is at stake, lowers
/// what COM stands to lose by 1.
pub open spec fn rule_capture_by_pawn(root: RootEvaluation, f: MoveFacts, e: LeafEvaluation) -> LeafEvaluation {
    if e.disadv_price < 20 && e.capture_price > 0 && f.pk_dst == PieceKind::Pawn {
        LeafEvaluation { score_nega: e.score_nega.wrapping_sub(1), ..e }
    } else {
        e
    }
}

/// A pawn that captures, while no dear piece of COM is at stake, lowers
/// what COM stands to lose by 1.
pub fn revise_capture_by_pawn(root: &RootEvaluation, f: &MoveFacts, e: LeafEvaluation) -> (r: LeafEvaluation)
    requires
        squares_ok(*root, e),
    ensures
        r == rule_capture_by_pawn(*root, *f, e),
        squares_ok(*root, r),
{
    let mut r: LeafEvaluation = e;
    if e.disadv_price < 20 && e.capture_price > 0 && f.pk_dst == PieceKind::Pawn {
        let new_score_nega: u8 = e.score_nega.wrapping_sub(1);
        r.score_nega = new_score_nega;
    }
    r
}

/// A hanging pawn or lance of HUM raises what COM stands to lose by 4.
pub open spec fn rule_hum_hanging(root: RootEvaluation, f: MoveFacts, e: LeafEvaluation) -> LeafEvaluation {
    if e.hum_hanging {
        LeafEvaluation { score_nega: e.score_nega.wrapping_add(4), ..e }
    } else {
        e
    }
}

/// A hanging pawn or lance of HUM raises what COM stands to lose by 4.
pub fn revise_hum_hanging(root: &RootEvaluation, f: &MoveFacts, e: LeafEvaluation) -> (r: LeafEvaluation)
    requires
        squares_ok(*root, e),
    ensures
        r == rule_hum_hanging(*root, *f, e),
        squares_ok(*root, r),
{
    let mut r: LeafEvaluation = e;
    if e.hum_hanging {
        let new_score_nega: u8 = e.score_nega.wrapping_add(4);
        r.score_nega = new_score_nega;
    }
    r
}

/// From the middle game on (a power of 15), a small loss far from COM's
/// king (distance 4 or more) is not counted.
pub open spec fn rule_midgame_attacked_pawn(root: RootEvaluation, f: MoveFacts, e: LeafEvaluation) -> LeafEvaluation {
    if (root.power_hum >= 15 || root.power_com >= 15) && e.score_nega < 3 && (match e.disadv_sq { Some(s) => root.king_sq@[1].distance(s) >= 4, None => false }) {
        LeafEvaluation { score_nega: e.score_nega.wrapping_sub(e.disadv_price), ..e }
    } else {
        e
    }
}

/// From the middle game on (a power of 15), a small loss far from COM's
/// king (distance 4 or more) is not counted.
pub fn revise_midgame_attacked_pawn(root: &RootEvaluation, f: &MoveFacts, e: LeafEvaluation) -> (r: LeafEvaluation)
    requires
        squares_ok(*root, e),
    ensures
        r == rule_midgame_attacked_pawn(*root, *f, e),
        squares_ok(*root, r),
{
    let mut r: LeafEvaluation = e;
    if (root.power_hum >= 15 || root.power_com >= 15) && e.score_nega < 3 && (match e.disadv_sq { Some(s) => root.king_sq[1].distance(s) >= 4, None => false }) {
        let new_score_nega: u8 = e.score_nega.wrapping_sub(e.disadv_price);
        r.score_nega = new_score_nega;
    }
    r
}

/// In the endgame (a power of 25), the best advantage square is not counted
/// when it is far from both kings.
pub open spec fn rule_endgame_unimportant_adv_sq(root: RootEvaluation, f: MoveFacts, e: LeafEvaluation) -> LeafEvaluation {
    if (root.power_hum >= 25 || root.power_com >= 25) && (match e.adv_sq { Some(s) => root.king_sq@[0].distance(s) >= 4 && root.king_sq@[1].distance(s) >= 3, None => false }) {
        LeafEvaluation { score_posi: e.score_posi.wrapping_sub(e.adv_price), ..e }
    } else {
        e
    }
}

/// In the endgame (a power of 25), the best advantage square is not counted
/// when it is far from both kings.
pub fn revise_endgame_unimportant_adv_sq(root: &RootEvaluation, f: &MoveFacts, e: LeafEvaluation) -> (r: LeafEvaluation)
    requires
        squares_ok(*root, e),
    ensures
        r == rule_endgame_unimportant_adv_sq(*root, *f, e),
        squares_ok(*root, r),
{
    let mut r: LeafEvaluation = e;
    if (root.power_hum >= 25 || root.power_com >= 25) && (match e.adv_sq { Some(s) => root.king_sq[0].distance(s) >= 4 && root.king_sq[1].distance(s) >= 3, None => false }) {
        let new_score_posi: u8 = e.score_posi.wrapping_sub(e.adv_price);
        r.score_posi = new_score_posi;
    }
    r
}

/// In the endgame, a cheap loss (a price below 7) far from both kings is
/// not counted.
pub open spec fn rule_endgame_unimportant_cheap_disadv_sq(root: RootEvaluation, f: MoveFacts, e: LeafEvaluation) -> LeafEvaluation {
    if (root.power_hum >= 25 || root.power_com >= 25) && e.disadv_price < 7 && (match e.disadv_sq { Some(s) => root.king_sq@[0].distance(s) >= 3 && root.king_sq@[1].distance(s) >= 3, None => false }) {
        LeafEvaluation { score_nega: e.score_nega.wrapping_sub(e.disadv_price), ..e }
    } else {
        e
    }
}

/// In the endgame, a cheap loss (a price below 7) far from both kings is
/// not counted.
pub fn revise_endgame_unimportant_cheap_disadv_sq(root: &RootEvaluation, f: &MoveFacts, e: LeafEvaluation) -> (r: LeafEvaluation)
    requires
        squares_ok(*root, e),
    ensures
        r == rule_endgame_unimportant_cheap_disadv_sq(*root, *f, e),
        squares_ok(*root, r),
{
    let mut r: LeafEvaluation = e;
    if (root.power_hum >= 25 || root.power_com >= 25) && e.disadv_price < 7 && (match e.disadv_sq { Some(s) => root.king_sq[0].distance(s) >= 3 && root.king_sq[1].distance(s) >= 3, None => false }) {
        let new_score_nega: u8 = e.score_nega.wrapping_sub(e.disadv_price);
        r.score_nega = new_score_nega;
    }
    r
}

/// In the endgame, a capture within distance 2 of HUM's king is worth 2
/// more.
pub open spec fn rule_endgame_capture_near_hum_king(root: RootEvaluation, f: MoveFacts, e: LeafEvaluation) -> LeafEvaluation {
    if (root.power_hum >= 25 || root.power_com >= 25) && e.capture_price > 0 && e.dst_to_hum_king <= 2 {
        LeafEvaluation { capture_price: e.capture_price.wrapping_add(2), ..e }
    } else {
        e
    }
}

/// In the endgame, a capture within distance 2 of HUM's king is worth 2
/// more.
pub fn revise_endgame_capture_near_hum_king(root: &RootEvaluation, f: &MoveFacts, e: LeafEvaluation) -> (r: LeafEvaluation)
    requires
        squares_ok(*root, e),
    ensures
        r == rule_endgame_capture_near_hum_king(*root, *f, e),
        squares_ok(*root, r),
{
    let mut r: LeafEvaluation = e;
    if (root.power_hum >= 25 || root.power_com >= 25) && e.capture_price > 0 && e.dst_to_hum_king <= 2 {
        let new_capture_price: u8 = e.capture_price.wrapping_add(2);
        r.capture_price = new_capture_price;
    }
    r
}

/// In the endgame, a capture at distance 4 or more from both kings is worth
/// 3 less.
pub open spec fn rule_endgame_unimportant_capture(root: RootEvaluation, f: MoveFacts, e: LeafEvaluation) -> LeafEvaluation {
    if (root.power_hum >= 25 || root.power_com >= 25) && e.capture_price > 0 && e.dst_to_hum_king >= 4 && f.dst_to_com_king >= 4 {
        LeafEvaluation { capture_price: e.capture_price.wrapping_sub(3), ..e }
    } else {
        e
    }
}

/// In the endgame, a capture at distance 4 or more from both kings is worth
/// 3 less.
pub fn revise_endgame_unimportant_capture(root: &RootEvaluation, f: &MoveFacts, e: LeafEvaluation) -> (r: LeafEvaluation)
    requires
        squares_ok(*root, e),
    ensures
        r == rule_endgame_unimportant_capture(*root, *f, e),
        squares_ok(*root, r),
{
    let mut r: LeafEvaluation = e;
    if (root.power_hum >= 25 || root.power_com >= 25) && e.capture_price > 0 && e.dst_to_hum_king >= 4 && f.dst_to_com_king >= 4 {
        let new_capture_price: u8 = e.capture_price.wrapping_sub(3);
        r.capture_price = new_capture_price;
    }
    r
}

/// A check that leads nowhere is not counted: COM has little around HUM's
/// king, few strong pieces and little power, and the check is all that the
/// candidate wins.
pub open spec fn rule_useless_check(root: RootEvaluation, f: MoveFacts, e: LeafEvaluation) -> LeafEvaluation {
    if e.adv_price >= 30 && e.hum_king_threat_around25 < 12 && root.rbp_com < 4 && root.power_com < 35 && e.score_posi.wrapping_sub(e.adv_price) < 3 {
        LeafEvaluation { score_posi: e.score_posi.wrapping_sub(e.adv_price), ..e }
    } else {
        e
    }
}

/// A check that leads nowhere is not counted: COM has little around HUM's
/// king, few strong pieces and little power, and the check is all that the
/// candidate wins.
pub fn revise_useless_check(root: &RootEvaluation, f: &MoveFacts, e: LeafEvaluation) -> (r: LeafEvaluation)
    requires
        squares_ok(*root, e),
    ensures
        r == rule_useless_check(*root, *f, e),
        squares_ok(*root, r),
{
    let mut r: LeafEvaluation = e;
    if e.adv_price >= 30 && e.hum_king_threat_around25 < 12 && root.rbp_com < 4 && root.power_com < 35 && e.score_posi.wrapping_sub(e.adv_price) < 3 {
        let new_score_posi: u8 = e.score_posi.wrapping_sub(e.adv_price);
        r.score_posi = new_score_posi;
    }
    r
}

/// A silver or gold dropped in COM's own half, far from both kings, costs
/// 2, unless the root was answering a check.
pub open spec fn rule_useless_drop(root: RootEvaluation, f: MoveFacts, e: LeafEvaluation) -> LeafEvaluation {
    if f.is_drop && (f.pk_dst == PieceKind::Silver || f.pk_dst == PieceKind::Gold) && f.dst_row <= 4 && root.disadv_price < 30 && e.dst_to_hum_king >= 3 && f.dst_to_com_king >= 3 {
        LeafEvaluation { score_nega: e.score_nega.wrapping_add(2), ..e }
    } else {
        e
    }
}

/// A silver or gold dropped in COM's own half, far from both kings, costs
/// 2, unless the root was answering a check.
pub fn revise_useless_drop(root: &RootEvaluation, f: &MoveFacts, e: LeafEvaluation) -> (r: LeafEvaluation)
    requires
        squares_ok(*root, e),
    ensures
        r == rule_useless_drop(*root, *f, e),
        squares_ok(*root, r),
{
    let mut r: LeafEvaluation = e;
    if f.is_drop && (f.pk_dst == PieceKind::Silver || f.pk_dst == PieceKind::Gold) && f.dst_row <= 4 && root.disadv_price < 30 && e.dst_to_hum_king >= 3 && f.dst_to_com_king >= 3 {
        let new_score_nega: u8 = e.score_nega.wrapping_add(2);
        r.score_nega = new_score_nega;
    }
    r
}

/// With a power of 27, what the candidate stands to win makes a capture
/// dearer: by 4 from a gain of 6 on, by 1 from a gain of 3 on.
pub open spec fn rule_increase_capture_price(root: RootEvaluation, f: MoveFacts, e: LeafEvaluation) -> LeafEvaluation {
    if root.power_com >= 27 && e.score_posi >= 3 {
        LeafEvaluation { capture_price: e.capture_price.wrapping_add(if e.score_posi >= 6 { 4 } else { 1 }), ..e }
    } else {
        e
    }
}

/// With a power of 27, what the candidate stands to win makes a capture
/// dearer: by 4 from a gain of 6 on, by 1 from a gain of 3 on.
pub fn revise_increase_capture_price(root: &RootEvaluation, f: &MoveFacts, e: LeafEvaluation) -> (r: LeafEvaluation)
    requires
        squares_ok(*root, e),
    ensures
        r == rule_increase_capture_price(*root, *f, e),
        squares_ok(*root, r),
{
    let mut r: LeafEvaluation = e;
    if root.power_com >= 27 && e.score_posi >= 3 {
        let new_capture_price: u8 = e.capture_price.wrapping_add(if e.score_posi >= 6 { 4 } else { 1 });
        r.capture_price = new_capture_price;
    }
    r
}

/// A rook or bishop dropped on rank 8 or 9 wins 2 and loses 2 less.
pub open spec fn rule_good_rook_bishop_drop(root: RootEvaluation, f: MoveFacts, e: LeafEvaluation) -> LeafEvaluation {
    if f.is_drop && (f.pk_dst == PieceKind::Bishop || f.pk_dst == PieceKind::Rook) && f.dst_row >= 7 {
        LeafEvaluation { score_posi: e.score_posi.wrapping_add(2), score_nega: e.score_nega.wrapping_sub(2), ..e }
    } else {
        e
    }
}

/// A rook or bishop dropped on rank 8 or 9 wins 2 and loses 2 less.
pub fn revise_good_rook_bishop_drop(root: &RootEvaluation, f: &MoveFacts, e: LeafEvaluation) -> (r: LeafEvaluation)
    requires
        squares_ok(*root, e),
    ensures
        r == rule_good_rook_bishop_drop(*root, *f, e),
        squares_ok(*root, r),
{
    let mut r: LeafEvaluation = e;
    if f.is_drop && (f.pk_dst == PieceKind::Bishop || f.pk_dst == PieceKind::Rook) && f.dst_row >= 7 {
        let new_score_posi: u8 = e.score_posi.wrapping_add(2);
        let new_score_nega: u8 = e.score_nega.wrapping_sub(2);
        r.score_posi = new_score_posi;
        r.score_nega = new_score_nega;
    }
    r
}

/// A rook or bishop dropped above rank 8 wins 2 less and loses 2 more, and
/// 2 more again on ranks 1 to 4, unless the root was answering a check.
pub open spec fn rule_bad_rook_bishop_drop(root: RootEvaluation, f: MoveFacts, e: LeafEvaluation) -> LeafEvaluation {
    if f.is_drop && (f.pk_dst == PieceKind::Bishop || f.pk_dst == PieceKind::Rook) && f.dst_row < 7 && root.disadv_price < 30 {
        LeafEvaluation { score_posi: e.score_posi.wrapping_sub(2), score_nega: e.score_nega.wrapping_add(if f.dst_row <= 3 { 4 } else { 2 }), ..e }
    } else {
        e
    }
}

/// A rook or bishop dropped above rank 8 wins 2 less and loses 2 more, and
/// 2 more again on ranks 1 to 4, unless the root was answering a check.
pub fn revise_bad_rook_bishop_drop(root: &RootEvaluation, f: &MoveFacts, e: LeafEvaluation) -> (r: LeafEvaluation)
    requires
        squares_ok(*root, e),
    ensures
        r == rule_bad_rook_bishop_drop(*root, *f, e),
        squares_ok(*root, r),
{
    let mut r: LeafEvaluation = e;
    if f.is_drop && (f.pk_dst == PieceKind::Bishop || f.pk_dst == PieceKind::Rook) && f.dst_row < 7 && root.disadv_price < 30 {
        let new_score_posi: u8 = e.score_posi.wrapping_sub(2);
        let new_score_nega: u8 = e.score_nega.wrapping_add(if f.dst_row <= 3 { 4 } else { 2 });
        r.score_posi = new_score_posi;
        r.score_nega = new_score_nega;
    }
    r
}

/// A move of the king makes the capture 1 cheaper and wins 2 less, whether
/// it captures or not.
pub open spec fn rule_capture_by_king(root: RootEvaluation, f: MoveFacts, e: LeafEvaluation) -> LeafEvaluation {
    if f.pk_dst == PieceKind::King {
        LeafEvaluation { capture_price: e.capture_price.wrapping_sub(1), score_posi: e.score_posi.wrapping_sub(2), ..e }
    } else {
        e
    }
}

/// A move of the king makes the capture 1 cheaper and wins 2 less, whether
/// it captures or not.
pub fn revise_capture_by_king(root: &RootEvaluation, f: &MoveFacts, e: LeafEvaluation) -> (r: LeafEvaluation)
    requires
        squares_ok(*root, e),
    ensures
        r == rule_capture_by_king(*root, *f, e),
        squares_ok(*root, r),
{
    let mut r: LeafEvaluation = e;
    if f.pk_dst == PieceKind::King {
        let new_capture_price: u8 = e.capture_price.wrapping_sub(1);
        let new_score_posi: u8 = e.score_posi.wrapping_sub(2);
        r.capture_price = new_capture_price;
        r.score_posi = new_score_posi;
    }
    r
}

/// With a power of 31 and nothing to lose, a cheap advantage square within
/// distance 2 of COM's king wins half of what COM has around HUM's king
/// beyond 7.  No advantage square counts as the square off the board on
/// file 10, rank 9.
pub open spec fn rule_cheap_adv_sq_near_hum_king(root: RootEvaluation, f: MoveFacts, e: LeafEvaluation) -> LeafEvaluation {
    if root.power_com >= 31 && e.adv_price < 4 && e.disadv_price == 0 && e.hum_king_threat_around25 >= 7 && naitou_square_distance(e.adv_sq, root.king_sq@[1]) <= 2 {
        LeafEvaluation { score_posi: e.score_posi.wrapping_add(((e.hum_king_threat_around25 - 7) as u8) / 2), ..e }
    } else {
        e
    }
}

/// With a power of 31 and nothing to lose, a cheap advantage square within
/// distance 2 of COM's king wins half of what COM has around HUM's king
/// beyond 7.  No advantage square counts as the square off the board on
/// file 10, rank 9.
pub fn revise_cheap_adv_sq_near_hum_king(root: &RootEvaluation, f: &MoveFacts, e: LeafEvaluation) -> (r: LeafEvaluation)
    requires
        squares_ok(*root, e),
    ensures
        r == rule_cheap_adv_sq_near_hum_king(*root, *f, e),
        squares_ok(*root, r),
{
    let mut r: LeafEvaluation = e;
    if root.power_com >= 31 && e.adv_price < 4 && e.disadv_price == 0 && e.hum_king_threat_around25 >= 7 && naitou_square_distance(e.adv_sq, root.king_sq[1]) <= 2 {
        let new_score_posi: u8 = e.score_posi.wrapping_add(((e.hum_king_threat_around25 - 7) as u8) / 2);
        r.score_posi = new_score_posi;
    }
    r
}

/// A bishop that offers itself against a bishop wins nothing by it.
pub open spec fn rule_inhibit_bishop_exchange(root: RootEvaluation, f: MoveFacts, e: LeafEvaluation) -> LeafEvaluation {
    if e.adv_price == 16 && f.pk_dst == PieceKind::Bishop {
        LeafEvaluation { score_posi: e.score_posi.wrapping_sub(e.adv_price), adv_price: 0, ..e }
    } else {
        e
    }
}

/// A bishop that offers itself against a bishop wins nothing by it.
pub fn revise_inhibit_bishop_exchange(root: &RootEvaluation, f: &MoveFacts, e: LeafEvaluation) -> (r: LeafEvaluation)
    requires
        squares_ok(*root, e),
    ensures
        r == rule_inhibit_bishop_exchange(*root, *f, e),
        squares_ok(*root, r),
{
    let mut r: LeafEvaluation = e;
    if e.adv_price == 16 && f.pk_dst == PieceKind::Bishop {
        let new_score_posi: u8 = e.score_posi.wrapping_sub(e.adv_price);
        let new_adv_price: u8 = 0;
        r.score_posi = new_score_posi;
        r.adv_price = new_adv_price;
    }
    r
}

/// With a power of 27, every move but a drop of rook or bishop pays 4 for
/// each neighbour of COM's king that HUM holds.
pub open spec fn rule_keep_rook_bishop_in_emergency(root: RootEvaluation, f: MoveFacts, e: LeafEvaluation) -> LeafEvaluation {
    if root.power_com >= 27 && !(f.is_drop && (f.pk_dst == PieceKind::Bishop || f.pk_dst == PieceKind::Rook)) {
        LeafEvaluation { score_posi: e.score_posi.wrapping_sub(e.com_king_choke_count_around8.wrapping_mul(4)), score_nega: e.score_nega.wrapping_add(e.com_king_choke_count_around8.wrapping_mul(4)), ..e }
    } else {
        e
    }
}

/// With a power of 27, every move but a drop of rook or bishop pays 4 for
/// each neighbour of COM's king that HUM holds.
pub fn revise_keep_rook_bishop_in_emergency(root: &RootEvaluation, f: &MoveFacts, e: LeafEvaluation) -> (r: LeafEvaluation)
    requires
        squares_ok(*root, e),
    ensures
        r == rule_keep_rook_bishop_in_emergency(*root, *f, e),
        squares_ok(*root, r),
{
    let mut r: LeafEvaluation = e;
    if root.power_com >= 27 && !(f.is_drop && (f.pk_dst == PieceKind::Bishop || f.pk_dst == PieceKind::Rook)) {
        let new_score_posi: u8 = e.score_posi.wrapping_sub(e.com_king_choke_count_around8.wrapping_mul(4));
        let new_score_nega: u8 = e.score_nega.wrapping_add(e.com_king_choke_count_around8.wrapping_mul(4));
        r.score_posi = new_score_posi;
        r.score_nega = new_score_nega;
    }
    r
}

/// When COM is strong, the capture of a silver or better near HUM's king
/// wins 2 more, and a middling loss is counted as 8.
pub open spec fn rule_capture_near_hum_king(root: RootEvaluation, f: MoveFacts, e: LeafEvaluation) -> LeafEvaluation {
    if e.capture_price >= 8 && f.captured_hum_silver_to_king && (e.adv_price >= 30 || naitou_square_distance(e.adv_sq, root.king_sq@[0]) < 3) && root.power_com >= 30 && e.hum_king_threat_around25 >= 7 && root.rbp_com >= 4 {
        LeafEvaluation { score_posi: e.score_posi.wrapping_add(2), score_nega: if 8 <= e.disadv_price && e.disadv_price < 30 { 8 } else { e.score_nega }, disadv_price: if 8 <= e.disadv_price && e.disadv_price < 30 { 8 } else { e.disadv_price }, ..e }
    } else {
        e
    }
}

/// When COM is strong, the capture of a silver or better near HUM's king
/// wins 2 more, and a middling loss is counted as 8.
pub fn revise_capture_near_hum_king(root: &RootEvaluation, f: &MoveFacts, e: LeafEvaluation) -> (r: LeafEvaluation)
    requires
        squares_ok(*root, e),
    ensures
        r == rule_capture_near_hum_king(*root, *f, e),
        squares_ok(*root, r),
{
    let mut r: LeafEvaluation = e;
    if e.capture_price >= 8 && f.captured_hum_silver_to_king && (e.adv_price >= 30 || naitou_square_distance(e.adv_sq, root.king_sq[0]) < 3) && root.power_com >= 30 && e.hum_king_threat_around25 >= 7 && root.rbp_com >= 4 {
        let new_score_posi: u8 = e.score_posi.wrapping_add(2);
        let new_score_nega: u8 = if 8 <= e.disadv_price && e.disadv_price < 30 { 8 } else { e.score_nega };
        let new_disadv_price: u8 = if 8 <= e.disadv_price && e.disadv_price < 30 { 8 } else { e.disadv_price };
        r.score_posi = new_score_posi;
        r.score_nega = new_score_nega;
        r.disadv_price = new_disadv_price;
    }
    r
}

/// A king under pressure (5 attacks on its neighbours) gains nothing by
/// capturing.
pub open spec fn rule_capture_by_king_in_emergency(root: RootEvaluation, f: MoveFacts, e: LeafEvaluation) -> LeafEvaluation {
    if e.com_king_threat_around8 >= 5 && f.pk_dst == PieceKind::King {
        LeafEvaluation { capture_price: 0, ..e }
    } else {
        e
    }
}

/// A king under pressure (5 attacks on its neighbours) gains nothing by
/// capturing.
pub fn revise_capture_by_king_in_emergency(root: &RootEvaluation, f: &MoveFacts, e: LeafEvaluation) -> (r: LeafEvaluation)
    requires
        squares_ok(*root, e),
    ensures
        r == rule_capture_by_king_in_emergency(*root, *f, e),
        squares_ok(*root, r),
{
    let mut r: LeafEvaluation = e;
    if e.com_king_threat_around8 >= 5 && f.pk_dst == PieceKind::King {
        let new_capture_price: u8 = 0;
        r.capture_price = new_capture_price;
    }
    r
}

/// With a power of 35, a check that captures loses 2 less.
pub open spec fn rule_capturing_check(root: RootEvaluation, f: MoveFacts, e: LeafEvaluation) -> LeafEvaluation {
    if root.power_com >= 35 && e.adv_price >= 30 && e.capture_price >= 2 {
        LeafEvaluation { score_nega: e.score_nega.wrapping_sub(2), ..e }
    } else {
        e
    }
}

/// With a power of 35, a check that captures loses 2 less.
pub fn revise_capturing_check(root: &RootEvaluation, f: &MoveFacts, e: LeafEvaluation) -> (r: LeafEvaluation)
    requires
        squares_ok(*root, e),
    ensures
        r == rule_capturing_check(*root, *f, e),
        squares_ok(*root, r),
{
    let mut r: LeafEvaluation = e;
    if root.power_com >= 35 && e.adv_price >= 30 && e.capture_price >= 2 {
        let new_score_nega: u8 = e.score_nega.wrapping_sub(2);
        r.score_nega = new_score_nega;
    }
    r
}

/// With a power of 20, a candidate that captures little is credited with
/// part of what it stands to win: 1 from a gain of 5, 2 from 10, 3 from 20.
pub open spec fn rule_cheap_capture_price(root: RootEvaluation, f: MoveFacts, e: LeafEvaluation) -> LeafEvaluation {
    if root.power_com >= 20 && e.capture_price < 2 && e.score_posi >= 5 {
        LeafEvaluation { capture_price: e.capture_price.wrapping_add(if e.score_posi >= 20 { 3 } else if e.score_posi >= 10 { 2 } else { 1 }), ..e }
    } else {
        e
    }
}

/// With a power of 20, a candidate that captures little is credited with
/// part of what it stands to win: 1 from a gain of 5, 2 from 10, 3 from 20.
pub fn revise_cheap_capture_price(root: &RootEvaluation, f: &MoveFacts, e: LeafEvaluation) -> (r: LeafEvaluation)
    requires
        squares_ok(*root, e),
    ensures
        r == rule_cheap_capture_price(*root, *f, e),
        squares_ok(*root, r),
{
    let mut r: LeafEvaluation = e;
    if root.power_com >= 20 && e.capture_price < 2 && e.score_posi >= 5 {
        let new_capture_price: u8 = e.capture_price.wrapping_add(if e.score_posi >= 20 { 3 } else if e.score_posi >= 10 { 2 } else { 1 });
        r.capture_price = new_capture_price;
    }
    r
}

/// A rook or bishop dropped outside HUM's camp (ranks 1 to 6) wins 3 less
/// and loses 3 more.
pub open spec fn rule_bad_rook_bishop_drop_2(root: RootEvaluation, f: MoveFacts, e: LeafEvaluation) -> LeafEvaluation {
    if f.is_drop && (f.pk_dst == PieceKind::Bishop || f.pk_dst == PieceKind::Rook) && f.dst_row <= 5 {
        LeafEvaluation { score_posi: e.score_posi.wrapping_sub(3), score_nega: e.score_nega.wrapping_add(3), ..e }
    } else {
        e
    }
}

/// A rook or bishop dropped outside HUM's camp (ranks 1 to 6) wins 3 less
/// and loses 3 more.
pub fn revise_bad_rook_bishop_drop_2(root: &RootEvaluation, f: &MoveFacts, e: LeafEvaluation) -> (r: LeafEvaluation)
    requires
        squares_ok(*root, e),
    ensures
        r == rule_bad_rook_bishop_drop_2(*root, *f, e),
        squares_ok(*root, r),
{
    let mut r: LeafEvaluation = e;
    if f.is_drop && (f.pk_dst == PieceKind::Bishop || f.pk_dst == PieceKind::Rook) && f.dst_row <= 5 {
        let new_score_posi: u8 = e.score_posi.wrapping_sub(3);
        let new_score_nega: u8 = e.score_nega.wrapping_add(3);
        r.score_posi = new_score_posi;
        r.score_nega = new_score_nega;
    }
    r
}

/// A promoted piece that moves wins by as much as it comes nearer to HUM's
/// king.
pub open spec fn rule_promoted_walk(root: RootEvaluation, f: MoveFacts, e: LeafEvaluation) -> LeafEvaluation {
    if !f.is_drop && f.src_promoted {
        LeafEvaluation { score_posi: e.score_posi.wrapping_add(f.walk_gain), ..e }
    } else {
        e
    }
}

/// A promoted piece that moves wins by as much as it comes nearer to HUM's
/// king.
pub fn revise_promoted_walk(root: &RootEvaluation, f: &MoveFacts, e: LeafEvaluation) -> (r: LeafEvaluation)
    requires
        squares_ok(*root, e),
    ensures
        r == rule_promoted_walk(*root, *f, e),
        squares_ok(*root, r),
{
    let mut r: LeafEvaluation = e;
    if !f.is_drop && f.src_promoted {
        let new_score_posi: u8 = e.score_posi.wrapping_add(f.walk_gain);
        r.score_posi = new_score_posi;
    }
    r
}

/// With a power of 25, a check wins 4 more, captures 1 more and loses 2
/// less.
pub open spec fn rule_check_with_power(root: RootEvaluation, f: MoveFacts, e: LeafEvaluation) -> LeafEvaluation {
    if root.power_com >= 25 && e.adv_price >= 30 {
        LeafEvaluation { score_posi: e.score_posi.wrapping_add(4), capture_price: e.capture_price.wrapping_add(1), score_nega: e.score_nega.wrapping_sub(2), ..e }
    } else {
        e
    }
}

/// With a power of 25, a check wins 4 more, captures 1 more and loses 2
/// less.
pub fn revise_check_with_power(root: &RootEvaluation, f: &MoveFacts, e: LeafEvaluation) -> (r: LeafEvaluation)
    requires
        squares_ok(*root, e),
    ensures
        r == rule_check_with_power(*root, *f, e),
        squares_ok(*root, r),
{
    let mut r: LeafEvaluation = e;
    if root.power_com >= 25 && e.adv_price >= 30 {
        let new_score_posi: u8 = e.score_posi.wrapping_add(4);
        let new_capture_price: u8 = e.capture_price.wrapping_add(1);
        let new_score_nega: u8 = e.score_nega.wrapping_sub(2);
        r.score_posi = new_score_posi;
        r.capture_price = new_capture_price;
        r.score_nega = new_score_nega;
    }
    r
}

/// A check that captures a silver or better loses 4 less.
pub open spec fn rule_good_capturing_check(root: RootEvaluation, f: MoveFacts, e: LeafEvaluation) -> LeafEvaluation {
    if e.adv_price >= 30 && e.capture_price >= 8 {
        LeafEvaluation { score_nega: e.score_nega.wrapping_sub(4), ..e }
    } else {
        e
    }
}

/// A check that captures a silver or better loses 4 less.
pub fn revise_good_capturing_check(root: &RootEvaluation, f: &MoveFacts, e: LeafEvaluation) -> (r: LeafEvaluation)
    requires
        squares_ok(*root, e),
    ensures
        r == rule_good_capturing_check(*root, *f, e),
        squares_ok(*root, r),
{
    let mut r: LeafEvaluation = e;
    if e.adv_price >= 30 && e.capture_price >= 8 {
        let new_score_nega: u8 = e.score_nega.wrapping_sub(4);
        r.score_nega = new_score_nega;
    }
    r
}

/// A score of 128 or more counts as negative and becomes 0.
pub open spec fn saturated(x: u8) -> u8 {
    if x >= 128 {
        0
    } else {
        x
    }
}

/// A score of 128 or more counts as negative and becomes 0.
pub fn saturate_negative(x: &mut u8)
    ensures
        *final(x) == saturated(*old(x)),
{
    if *x >= 128 {
        *x = 0;
    }
}

/// The evaluation after all revisions, in their order, and the final
/// clearing of negative scores.
pub open spec fn revised(root: RootEvaluation, umv: UndoableMove, e: LeafEvaluation) -> LeafEvaluation {
    let f = facts_of(root, umv);
    let e1 = rule_capture_by_pawn(root, f, e);
    let e2 = rule_hum_hanging(root, f, e1);
    let e3 = rule_midgame_attacked_pawn(root, f, e2);
    let e4 = rule_endgame_unimportant_adv_sq(root, f, e3);
    let e5 = rule_endgame_unimportant_cheap_disadv_sq(root, f, e4);
    let e6 = rule_endgame_capture_near_hum_king(root, f, e5);
    let e7 = rule_endgame_unimportant_capture(root, f, e6);
    let e8 = rule_useless_check(root, f, e7);
    let e9 = rule_useless_drop(root, f, e8);
    let e10 = rule_increase_capture_price(root, f, e9);
    let e11 = rule_good_rook_bishop_drop(root, f, e10);
    let e12 = rule_bad_rook_bishop_drop(root, f, e11);
    let e13 = rule_capture_by_king(root, f, e12);
    let e14 = rule_cheap_adv_sq_near_hum_king(root, f, e13);
    let e15 = rule_inhibit_bishop_exchange(root, f, e14);
    let e16 = rule_keep_rook_bishop_in_emergency(root, f, e15);
    let e17 = rule_capture_near_hum_king(root, f, e16);
    let e18 = rule_capture_by_king_in_emergency(root, f, e17);
    let e19 = rule_capturing_check(root, f, e18);
    let e20 = rule_cheap_capture_price(root, f, e19);
    let e21 = rule_bad_rook_bishop_drop_2(root, f, e20);
    let e22 = rule_promoted_walk(root, f, e21);
    let e23 = rule_check_with_power(root, f, e22);
    let e24 = rule_good_capturing_check(root, f, e23);
    LeafEvaluation {
        capture_price: saturated(e24.capture_price),
        score_posi: saturated(e24.score_posi),
        score_nega: saturated(e24.score_nega),
        ..e24
    }
}

/// Applies all revisions to `leaf`, in their order, and clears negative
/// scores at the end.
pub fn revise(root: &RootEvaluation, umv: UndoableMove, leaf: &mut LeafEvaluation)
    requires
        readable(umv),
        squares_ok(*root, *old(leaf)),
    ensures
        *final(leaf) == revised(*root, umv, *old(leaf)),
        squares_ok(*root, *final(leaf)),
{
    let f: MoveFacts = move_facts(root, umv);
    let mut e: LeafEvaluation = *leaf;
    e = revise_capture_by_pawn(root, &f, e);
    e = revise_hum_hanging(root, &f, e);
    e = revise_midgame_attacked_pawn(root, &f, e);
    e = revise_endgame_unimportant_adv_sq(root, &f, e);
    e = revise_endgame_unimportant_cheap_disadv_sq(root, &f, e);
    e = revise_endgame_capture_near_hum_king(root, &f, e);
    e = revise_endgame_unimportant_capture(root, &f, e);
    e = revise_useless_check(root, &f, e);
    e = revise_useless_drop(root, &f, e);
    e = revise_increase_capture_price(root, &f, e);
    e = revise_good_rook_bishop_drop(root, &f, e);
    e = revise_bad_rook_bishop_drop(root, &f, e);
    e = revise_capture_by_king(root, &f, e);
    e = revise_cheap_adv_sq_near_hum_king(root, &f, e);
    e = revise_inhibit_bishop_exchange(root, &f, e);
    e = revise_keep_rook_bishop_in_emergency(root, &f, e);
    e = revise_capture_near_hum_king(root, &f, e);
    e = revise_capture_by_king_in_emergency(root, &f, e);
    e = revise_capturing_check(root, &f, e);
    e = revise_cheap_capture_price(root, &f, e);
    e = revise_bad_rook_bishop_drop_2(root, &f, e);
    e = revise_promoted_walk(root, &f, e);
    e = revise_check_with_power(root, &f, e);
    e = revise_good_capturing_check(root, &f, e);
    saturate_negative(&mut e.capture_price);
    saturate_negative(&mut e.score_posi);
    saturate_negative(&mut e.score_nega);
    *leaf = e;
}

} // verus!
