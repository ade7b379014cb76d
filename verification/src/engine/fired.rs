//! Which revisions fire, and which step of the comparison decides.
//!
//! The revisions and the comparison give only their results.  The
//! functions of this module do the same work and say in addition what
//! happened on the way: the revisions whose condition held, in their order,
//! and the step that told a candidate from the best so far.

use vstd::prelude::*;
use crate::piece::PieceKind;
use crate::shogi::Square;
use crate::moves::UndoableMove;
use crate::naitou::naitou_square_distance;
use crate::engine::eval::RootEvaluation;
use crate::engine::leaf::{LeafEvaluation, readable};
use crate::engine::revise::{
    facts_of, move_facts, revise, revised, saturated, squares_ok, MoveFacts,
    rule_capture_by_pawn, revise_capture_by_pawn,
    rule_hum_hanging, revise_hum_hanging,
    rule_midgame_attacked_pawn, revise_midgame_attacked_pawn,
    rule_endgame_unimportant_adv_sq, revise_endgame_unimportant_adv_sq,
    rule_endgame_unimportant_cheap_disadv_sq, revise_endgame_unimportant_cheap_disadv_sq,
    rule_endgame_capture_near_hum_king, revise_endgame_capture_near_hum_king,
    rule_endgame_unimportant_capture, revise_endgame_unimportant_capture,
    rule_useless_check, revise_useless_check,
    rule_useless_drop, revise_useless_drop,
    rule_increase_capture_price, revise_increase_capture_price,
    rule_good_rook_bishop_drop, revise_good_rook_bishop_drop,
    rule_bad_rook_bishop_drop, revise_bad_rook_bishop_drop,
    rule_capture_by_king, revise_capture_by_king,
    rule_cheap_adv_sq_near_hum_king, revise_cheap_adv_sq_near_hum_king,
    rule_inhibit_bishop_exchange, revise_inhibit_bishop_exchange,
    rule_keep_rook_bishop_in_emergency, revise_keep_rook_bishop_in_emergency,
    rule_capture_near_hum_king, revise_capture_near_hum_king,
    rule_capture_by_king_in_emergency, revise_capture_by_king_in_emergency,
    rule_capturing_check, revise_capturing_check,
    rule_cheap_capture_price, revise_cheap_capture_price,
    rule_bad_rook_bishop_drop_2, revise_bad_rook_bishop_drop_2,
    rule_promoted_walk, revise_promoted_walk,
    rule_check_with_power, revise_check_with_power,
    rule_good_capturing_check, revise_good_capturing_check,
};
use crate::engine::compare::{improves, improves_best, stake_verdict};
use crate::engine::leaf::{
    adv_scan, capture_price_of, disadv_scan, leaf_evaluation, leaf_of, scan_advantage,
    scan_disadvantage,
};
use crate::movegen::general::{can_evade, position_is_checkmated_naitou};
use crate::naitou::naitou_piece_price_a;
use crate::piece::Piece;
use crate::engine::search::{
    after, lemma_after, lemma_record_readable, search_step, SearchState,
};
use crate::moves::Move;
use crate::naitou::naitou_com_drop_src_value;
use crate::position::{lemma_undo_restores, Position};

verus! {

/// A revision of a leaf evaluation.
#[derive(Clone, Copy, Debug, PartialEq, Eq, Structural, Hash)]
pub enum Revision {
    /// A pawn that captures, while no dear piece of COM is at stake, lowers
    /// what COM stands to lose by 1.
    CaptureByPawn,
    /// A hanging pawn or lance of HUM raises what COM stands to lose by 4.
    HumHanging,
    /// From the middle game on (a power of 15), a small loss far from COM's
    /// king (distance 4 or more) is not counted.
    MidgameAttackedPawn,
    /// In the endgame (a power of 25), the best advantage square is not counted
    /// when it is far from both kings.
    EndgameUnimportantAdvSq,
    /// In the endgame, a cheap loss (a price below 7) far from both kings is
    /// not counted.
    EndgameUnimportantCheapDisadvSq,
    /// In the endgame, a capture within distance 2 of HUM's king is worth 2
    /// more.
    EndgameCaptureNearHumKing,
    /// In the endgame, a capture at distance 4 or more from both kings is worth
    /// 3 less.
    EndgameUnimportantCapture,
    /// A check that leads nowhere is not counted: COM has little around HUM's
    /// king, few strong pieces and little power, and the check is all that the
    /// candidate wins.
    UselessCheck,
    /// A silver or gold dropped in COM's own half, far from both kings, costs
    /// 2, unless the root was answering a check.
    UselessDrop,
    /// With a power of 27, what the candidate stands to win makes a capture
    /// dearer: by 4 from a gain of 6 on, by 1 from a gain of 3 on.
    IncreaseCapturePrice,
    /// A rook or bishop dropped on rank 8 or 9 wins 2 and loses 2 less.
    GoodRookBishopDrop,
    /// A rook or bishop dropped above rank 8 wins 2 less and loses 2 more, and
    /// 2 more again on ranks 1 to 4, unless the root was answering a check.
    BadRookBishopDrop,
    /// A move of the king makes the capture 1 cheaper and wins 2 less, whether
    /// it captures or not.
    CaptureByKing,
    /// With a power of 31 and nothing to lose, a cheap advantage square within
    /// distance 2 of COM's king wins half of what COM has around HUM's king
    /// beyond 7.  No advantage square counts as the square off the board on
    /// file 10, rank 9.
    CheapAdvSqNearHumKing,
    /// A bishop that offers itself against a bishop wins nothing by it.
    InhibitBishopExchange,
    /// With a power of 27, every move but a drop of rook or bishop pays 4 for
    /// each neighbour of COM's king that HUM holds.
    KeepRookBishopInEmergency,
    /// When COM is strong, the capture of a silver or better near HUM's king
    /// wins 2 more, and a middling loss is counted as 8.
    CaptureNearHumKing,
    /// A king under pressure (5 attacks on its neighbours) gains nothing by
    /// capturing.
    CaptureByKingInEmergency,
    /// With a power of 35, a check that captures loses 2 less.
    CapturingCheck,
    /// With a power of 20, a candidate that captures little is credited with
    /// part of what it stands to win: 1 from a gain of 5, 2 from 10, 3 from 20.
    CheapCapturePrice,
    /// A rook or bishop dropped outside HUM's camp (ranks 1 to 6) wins 3 less
    /// and loses 3 more.
    BadRookBishopDrop2,
    /// A promoted piece that moves wins by as much as it comes nearer to HUM's
    /// king.
    PromotedWalk,
    /// With a power of 25, a check wins 4 more, captures 1 more and loses 2
    /// less.
    CheckWithPower,
    /// A check that captures a silver or better loses 4 less.
    GoodCapturingCheck,
}

/// The revisions in the order in which they are applied.
pub open spec fn revision_at(i: int) -> Revision {
    if i == 0 {
        Revision::CaptureByPawn
    } else if i == 1 {
        Revision::HumHanging
    } else if i == 2 {
        Revision::MidgameAttackedPawn
    } else if i == 3 {
        Revision::EndgameUnimportantAdvSq
    } else if i == 4 {
        Revision::EndgameUnimportantCheapDisadvSq
    } else if i == 5 {
        Revision::EndgameCaptureNearHumKing
    } else if i == 6 {
        Revision::EndgameUnimportantCapture
    } else if i == 7 {
        Revision::UselessCheck
    } else if i == 8 {
        Revision::UselessDrop
    } else if i == 9 {
        Revision::IncreaseCapturePrice
    } else if i == 10 {
        Revision::GoodRookBishopDrop
    } else if i == 11 {
        Revision::BadRookBishopDrop
    } else if i == 12 {
        Revision::CaptureByKing
    } else if i == 13 {
        Revision::CheapAdvSqNearHumKing
    } else if i == 14 {
        Revision::InhibitBishopExchange
    } else if i == 15 {
        Revision::KeepRookBishopInEmergency
    } else if i == 16 {
        Revision::CaptureNearHumKing
    } else if i == 17 {
        Revision::CaptureByKingInEmergency
    } else if i == 18 {
        Revision::CapturingCheck
    } else if i == 19 {
        Revision::CheapCapturePrice
    } else if i == 20 {
        Revision::BadRookBishopDrop2
    } else if i == 21 {
        Revision::PromotedWalk
    } else if i == 22 {
        Revision::CheckWithPower
    } else {
        Revision::GoodCapturingCheck
    }
}

/// Whether the condition of revision `rv` holds of the evaluation `e`.
pub open spec fn fires(rv: Revision, root: RootEvaluation, f: MoveFacts, e: LeafEvaluation) -> bool {
    match rv {
        Revision::CaptureByPawn => e.disadv_price < 20 && e.capture_price > 0 && f.pk_dst == PieceKind::Pawn,
        Revision::HumHanging => e.hum_hanging,
        Revision::MidgameAttackedPawn => (root.power_hum >= 15 || root.power_com >= 15) && e.score_nega < 3 && (match e.disadv_sq { Some(s) => root.king_sq@[1].distance(s) >= 4, None => false }),
        Revision::EndgameUnimportantAdvSq => (root.power_hum >= 25 || root.power_com >= 25) && (match e.adv_sq { Some(s) => root.king_sq@[0].distance(s) >= 4 && root.king_sq@[1].distance(s) >= 3, None => false }),
        Revision::EndgameUnimportantCheapDisadvSq => (root.power_hum >= 25 || root.power_com >= 25) && e.disadv_price < 7 && (match e.disadv_sq { Some(s) => root.king_sq@[0].distance(s) >= 3 && root.king_sq@[1].distance(s) >= 3, None => false }),
        Revision::EndgameCaptureNearHumKing => (root.power_hum >= 25 || root.power_com >= 25) && e.capture_price > 0 && e.dst_to_hum_king <= 2,
        Revision::EndgameUnimportantCapture => (root.power_hum >= 25 || root.power_com >= 25) && e.capture_price > 0 && e.dst_to_hum_king >= 4 && f.dst_to_com_king >= 4,
        Revision::UselessCheck => e.adv_price >= 30 && e.hum_king_threat_around25 < 12 && root.rbp_com < 4 && root.power_com < 35 && e.score_posi.wrapping_sub(e.adv_price) < 3,
        Revision::UselessDrop => f.is_drop && (f.pk_dst == PieceKind::Silver || f.pk_dst == PieceKind::Gold) && f.dst_row <= 4 && root.disadv_price < 30 && e.dst_to_hum_king >= 3 && f.dst_to_com_king >= 3,
        Revision::IncreaseCapturePrice => root.power_com >= 27 && e.score_posi >= 3,
        Revision::GoodRookBishopDrop => f.is_drop && (f.pk_dst == PieceKind::Bishop || f.pk_dst == PieceKind::Rook) && f.dst_row >= 7,
        Revision::BadRookBishopDrop => f.is_drop && (f.pk_dst == PieceKind::Bishop || f.pk_dst == PieceKind::Rook) && f.dst_row < 7 && root.disadv_price < 30,
        Revision::CaptureByKing => f.pk_dst == PieceKind::King,
        Revision::CheapAdvSqNearHumKing => root.power_com >= 31 && e.adv_price < 4 && e.disadv_price == 0 && e.hum_king_threat_around25 >= 7 && naitou_square_distance(e.adv_sq, root.king_sq@[1]) <= 2,
        Revision::InhibitBishopExchange => e.adv_price == 16 && f.pk_dst == PieceKind::Bishop,
        Revision::KeepRookBishopInEmergency => root.power_com >= 27 && !(f.is_drop && (f.pk_dst == PieceKind::Bishop || f.pk_dst == PieceKind::Rook)),
        Revision::CaptureNearHumKing => e.capture_price >= 8 && f.captured_hum_silver_to_king && (e.adv_price >= 30 || naitou_square_distance(e.adv_sq, root.king_sq@[0]) < 3) && root.power_com >= 30 && e.hum_king_threat_around25 >= 7 && root.rbp_com >= 4,
        Revision::CaptureByKingInEmergency => e.com_king_threat_around8 >= 5 && f.pk_dst == PieceKind::King,
        Revision::CapturingCheck => root.power_com >= 35 && e.adv_price >= 30 && e.capture_price >= 2,
        Revision::CheapCapturePrice => root.power_com >= 20 && e.capture_price < 2 && e.score_posi >= 5,
        Revision::BadRookBishopDrop2 => f.is_drop && (f.pk_dst == PieceKind::Bishop || f.pk_dst == PieceKind::Rook) && f.dst_row <= 5,
        Revision::PromotedWalk => !f.is_drop && f.src_promoted,
        Revision::CheckWithPower => root.power_com >= 25 && e.adv_price >= 30,
        Revision::GoodCapturingCheck => e.adv_price >= 30 && e.capture_price >= 8,
    }
}

/// The evaluation `e` after revision `rv`.
pub open spec fn applied(rv: Revision, root: RootEvaluation, f: MoveFacts, e: LeafEvaluation) -> LeafEvaluation {
    match rv {
        Revision::CaptureByPawn => rule_capture_by_pawn(root, f, e),
        Revision::HumHanging => rule_hum_hanging(root, f, e),
        Revision::MidgameAttackedPawn => rule_midgame_attacked_pawn(root, f, e),
        Revision::EndgameUnimportantAdvSq => rule_endgame_unimportant_adv_sq(root, f, e),
        Revision::EndgameUnimportantCheapDisadvSq => rule_endgame_unimportant_cheap_disadv_sq(root, f, e),
        Revision::EndgameCaptureNearHumKing => rule_endgame_capture_near_hum_king(root, f, e),
        Revision::EndgameUnimportantCapture => rule_endgame_unimportant_capture(root, f, e),
        Revision::UselessCheck => rule_useless_check(root, f, e),
        Revision::UselessDrop => rule_useless_drop(root, f, e),
        Revision::IncreaseCapturePrice => rule_increase_capture_price(root, f, e),
        Revision::GoodRookBishopDrop => rule_good_rook_bishop_drop(root, f, e),
        Revision::BadRookBishopDrop => rule_bad_rook_bishop_drop(root, f, e),
        Revision::CaptureByKing => rule_capture_by_king(root, f, e),
        Revision::CheapAdvSqNearHumKing => rule_cheap_adv_sq_near_hum_king(root, f, e),
        Revision::InhibitBishopExchange => rule_inhibit_bishop_exchange(root, f, e),
        Revision::KeepRookBishopInEmergency => rule_keep_rook_bishop_in_emergency(root, f, e),
        Revision::CaptureNearHumKing => rule_capture_near_hum_king(root, f, e),
        Revision::CaptureByKingInEmergency => rule_capture_by_king_in_emergency(root, f, e),
        Revision::CapturingCheck => rule_capturing_check(root, f, e),
        Revision::CheapCapturePrice => rule_cheap_capture_price(root, f, e),
        Revision::BadRookBishopDrop2 => rule_bad_rook_bishop_drop_2(root, f, e),
        Revision::PromotedWalk => rule_promoted_walk(root, f, e),
        Revision::CheckWithPower => rule_check_with_power(root, f, e),
        Revision::GoodCapturingCheck => rule_good_capturing_check(root, f, e),
    }
}

/// A revision whose condition does not hold leaves the evaluation as it
/// is.
pub proof fn lemma_idle(rv: Revision, root: RootEvaluation, f: MoveFacts, e: LeafEvaluation)
    requires
        !fires(rv, root, f, e),
    ensures
        applied(rv, root, f, e) == e,
{
}

/// The evaluation after the first `n` revisions.
pub open spec fn revised_upto(root: RootEvaluation, f: MoveFacts, e: LeafEvaluation, n: int) -> LeafEvaluation
    decreases n,
{
    if n <= 0 {
        e
    } else {
        applied(revision_at(n - 1), root, f, revised_upto(root, f, e, n - 1))
    }
}

/// What happened when the turn of a revision came.
#[derive(Clone, Copy, Debug, PartialEq, Eq)]
pub struct RevisionStep {
    /// The revision.
    pub revision: Revision,
    /// Whether its condition held.
    pub fired: bool,
    /// The evaluation before the revision.
    pub before: LeafEvaluation,
}

/// What happens at the turn of revision `i` on the way from the evaluation
/// `e`.
#[verifier::opaque]
pub open spec fn step_at(root: RootEvaluation, f: MoveFacts, e: LeafEvaluation, i: int) -> RevisionStep {
    RevisionStep {
        revision: revision_at(i),
        fired: fires(revision_at(i), root, f, revised_upto(root, f, e, i)),
        before: revised_upto(root, f, e, i),
    }
}

/// What happens at the turns of the 24 revisions on the evaluation `e` of
/// the candidate `umv`, in their order.
#[verifier::opaque]
pub open spec fn steps(root: RootEvaluation, umv: UndoableMove, e: LeafEvaluation) -> Seq<RevisionStep> {
    Seq::new(24, |i: int| step_at(root, facts_of(root, umv), e, i))
}

/// The evaluation after all revisions is the evaluation after the 24
/// revisions one by one, with negative scores cleared.
pub proof fn lemma_revised(root: RootEvaluation, umv: UndoableMove, e: LeafEvaluation)
    ensures
        revised(root, umv, e) == ({
            let r = revised_upto(root, facts_of(root, umv), e, 24);
            LeafEvaluation {
                capture_price: saturated(r.capture_price),
                score_posi: saturated(r.score_posi),
                score_nega: saturated(r.score_nega),
                ..r
            }
        }),
{
    reveal_with_fuel(revised_upto, 25);
}

impl Revision {
    /// All revisions in the order in which they are applied.
    pub fn all() -> (r: [Revision; 24])
        ensures
            forall|i: int| 0 <= i < 24 ==> #[trigger] r@[i] == revision_at(i),
    {
        [
            Revision::CaptureByPawn,
            Revision::HumHanging,
            Revision::MidgameAttackedPawn,
            Revision::EndgameUnimportantAdvSq,
            Revision::EndgameUnimportantCheapDisadvSq,
            Revision::EndgameCaptureNearHumKing,
            Revision::EndgameUnimportantCapture,
            Revision::UselessCheck,
            Revision::UselessDrop,
            Revision::IncreaseCapturePrice,
            Revision::GoodRookBishopDrop,
            Revision::BadRookBishopDrop,
            Revision::CaptureByKing,
            Revision::CheapAdvSqNearHumKing,
            Revision::InhibitBishopExchange,
            Revision::KeepRookBishopInEmergency,
            Revision::CaptureNearHumKing,
            Revision::CaptureByKingInEmergency,
            Revision::CapturingCheck,
            Revision::CheapCapturePrice,
            Revision::BadRookBishopDrop2,
            Revision::PromotedWalk,
            Revision::CheckWithPower,
            Revision::GoodCapturingCheck,
        ]
    }

    /// Whether the condition of the revision holds of the evaluation `e`.
    pub fn holds(self, root: &RootEvaluation, f: &MoveFacts, e: &LeafEvaluation) -> (r: bool)
        requires
            squares_ok(*root, *e),
        ensures
            r == fires(self, *root, *f, *e),
    {
        match self {
            Revision::CaptureByPawn => e.disadv_price < 20 && e.capture_price > 0 && f.pk_dst == PieceKind::Pawn,
            Revision::HumHanging => e.hum_hanging,
            Revision::MidgameAttackedPawn => (root.power_hum >= 15 || root.power_com >= 15) && e.score_nega < 3 && (match e.disadv_sq { Some(s) => root.king_sq[1].distance(s) >= 4, None => false }),
            Revision::EndgameUnimportantAdvSq => (root.power_hum >= 25 || root.power_com >= 25) && (match e.adv_sq { Some(s) => root.king_sq[0].distance(s) >= 4 && root.king_sq[1].distance(s) >= 3, None => false }),
            Revision::EndgameUnimportantCheapDisadvSq => (root.power_hum >= 25 || root.power_com >= 25) && e.disadv_price < 7 && (match e.disadv_sq { Some(s) => root.king_sq[0].distance(s) >= 3 && root.king_sq[1].distance(s) >= 3, None => false }),
            Revision::EndgameCaptureNearHumKing => (root.power_hum >= 25 || root.power_com >= 25) && e.capture_price > 0 && e.dst_to_hum_king <= 2,
            Revision::EndgameUnimportantCapture => (root.power_hum >= 25 || root.power_com >= 25) && e.capture_price > 0 && e.dst_to_hum_king >= 4 && f.dst_to_com_king >= 4,
            Revision::UselessCheck => e.adv_price >= 30 && e.hum_king_threat_around25 < 12 && root.rbp_com < 4 && root.power_com < 35 && e.score_posi.wrapping_sub(e.adv_price) < 3,
            Revision::UselessDrop => f.is_drop && (f.pk_dst == PieceKind::Silver || f.pk_dst == PieceKind::Gold) && f.dst_row <= 4 && root.disadv_price < 30 && e.dst_to_hum_king >= 3 && f.dst_to_com_king >= 3,
            Revision::IncreaseCapturePrice => root.power_com >= 27 && e.score_posi >= 3,
            Revision::GoodRookBishopDrop => f.is_drop && (f.pk_dst == PieceKind::Bishop || f.pk_dst == PieceKind::Rook) && f.dst_row >= 7,
            Revision::BadRookBishopDrop => f.is_drop && (f.pk_dst == PieceKind::Bishop || f.pk_dst == PieceKind::Rook) && f.dst_row < 7 && root.disadv_price < 30,
            Revision::CaptureByKing => f.pk_dst == PieceKind::King,
            Revision::CheapAdvSqNearHumKing => root.power_com >= 31 && e.adv_price < 4 && e.disadv_price == 0 && e.hum_king_threat_around25 >= 7 && naitou_square_distance(e.adv_sq, root.king_sq[1]) <= 2,
            Revision::InhibitBishopExchange => e.adv_price == 16 && f.pk_dst == PieceKind::Bishop,
            Revision::KeepRookBishopInEmergency => root.power_com >= 27 && !(f.is_drop && (f.pk_dst == PieceKind::Bishop || f.pk_dst == PieceKind::Rook)),
            Revision::CaptureNearHumKing => e.capture_price >= 8 && f.captured_hum_silver_to_king && (e.adv_price >= 30 || naitou_square_distance(e.adv_sq, root.king_sq[0]) < 3) && root.power_com >= 30 && e.hum_king_threat_around25 >= 7 && root.rbp_com >= 4,
            Revision::CaptureByKingInEmergency => e.com_king_threat_around8 >= 5 && f.pk_dst == PieceKind::King,
            Revision::CapturingCheck => root.power_com >= 35 && e.adv_price >= 30 && e.capture_price >= 2,
            Revision::CheapCapturePrice => root.power_com >= 20 && e.capture_price < 2 && e.score_posi >= 5,
            Revision::BadRookBishopDrop2 => f.is_drop && (f.pk_dst == PieceKind::Bishop || f.pk_dst == PieceKind::Rook) && f.dst_row <= 5,
            Revision::PromotedWalk => !f.is_drop && f.src_promoted,
            Revision::CheckWithPower => root.power_com >= 25 && e.adv_price >= 30,
            Revision::GoodCapturingCheck => e.adv_price >= 30 && e.capture_price >= 8,
        }
    }

    /// The evaluation `e` after the revision.
    pub fn apply(self, root: &RootEvaluation, f: &MoveFacts, e: LeafEvaluation) -> (r: LeafEvaluation)
        requires
            squares_ok(*root, e),
        ensures
            r == applied(self, *root, *f, e),
            squares_ok(*root, r),
    {
        match self {
            Revision::CaptureByPawn => revise_capture_by_pawn(root, f, e),
            Revision::HumHanging => revise_hum_hanging(root, f, e),
            Revision::MidgameAttackedPawn => revise_midgame_attacked_pawn(root, f, e),
            Revision::EndgameUnimportantAdvSq => revise_endgame_unimportant_adv_sq(root, f, e),
            Revision::EndgameUnimportantCheapDisadvSq => revise_endgame_unimportant_cheap_disadv_sq(root, f, e),
            Revision::EndgameCaptureNearHumKing => revise_endgame_capture_near_hum_king(root, f, e),
            Revision::EndgameUnimportantCapture => revise_endgame_unimportant_capture(root, f, e),
            Revision::UselessCheck => revise_useless_check(root, f, e),
            Revision::UselessDrop => revise_useless_drop(root, f, e),
            Revision::IncreaseCapturePrice => revise_increase_capture_price(root, f, e),
            Revision::GoodRookBishopDrop => revise_good_rook_bishop_drop(root, f, e),
            Revision::BadRookBishopDrop => revise_bad_rook_bishop_drop(root, f, e),
            Revision::CaptureByKing => revise_capture_by_king(root, f, e),
            Revision::CheapAdvSqNearHumKing => revise_cheap_adv_sq_near_hum_king(root, f, e),
            Revision::InhibitBishopExchange => revise_inhibit_bishop_exchange(root, f, e),
            Revision::KeepRookBishopInEmergency => revise_keep_rook_bishop_in_emergency(root, f, e),
            Revision::CaptureNearHumKing => revise_capture_near_hum_king(root, f, e),
            Revision::CaptureByKingInEmergency => revise_capture_by_king_in_emergency(root, f, e),
            Revision::CapturingCheck => revise_capturing_check(root, f, e),
            Revision::CheapCapturePrice => revise_cheap_capture_price(root, f, e),
            Revision::BadRookBishopDrop2 => revise_bad_rook_bishop_drop_2(root, f, e),
            Revision::PromotedWalk => revise_promoted_walk(root, f, e),
            Revision::CheckWithPower => revise_check_with_power(root, f, e),
            Revision::GoodCapturingCheck => revise_good_capturing_check(root, f, e),
        }
    }
}

/// A list of 24 entries, each what happens at the turn of its revision, is
/// the list of what happens at the turns of the revisions.
pub proof fn lemma_steps(log: Seq<RevisionStep>, root: RootEvaluation, umv: UndoableMove, e: LeafEvaluation)
    requires
        log.len() == 24,
        forall|k: int| 0 <= k < 24 ==> #[trigger] log[k] == step_at(root, facts_of(root, umv), e, k),
    ensures
        log == steps(root, umv, e),
{
    reveal(steps);
    assert(log =~= steps(root, umv, e));
}

/// Applies the 24 revisions to `e0`, without the clearing of negative
/// scores at the end, and says for each revision, in their order, whether
/// its condition held and what the evaluation was before it.
pub fn run_revisions(root: &RootEvaluation, f: &MoveFacts, e0: LeafEvaluation) -> (r: (
    LeafEvaluation,
    Vec<RevisionStep>,
))
    requires
        squares_ok(*root, e0),
    ensures
        r.0 == revised_upto(*root, *f, e0, 24),
        squares_ok(*root, r.0),
        r.1@.len() == 24,
        forall|k: int| 0 <= k < 24 ==> #[trigger] r.1@[k] == step_at(*root, *f, e0, k),
{
    let all: [Revision; 24] = Revision::all();
    let mut e: LeafEvaluation = e0;
    let mut log: Vec<RevisionStep> = Vec::new();
    let mut i: usize = 0;
    while i < 24
        invariant
            i <= 24,
            forall|k: int| 0 <= k < 24 ==> #[trigger] all@[k] == revision_at(k),
            squares_ok(*root, e),
            e == revised_upto(*root, *f, e0, i as int),
            log@.len() == i,
            forall|k: int| 0 <= k < i ==> #[trigger] log@[k] == step_at(*root, *f, e0, k),
        decreases 24 - i,
    {
        let rv: Revision = all[i];
        let fired: bool = rv.holds(root, f, &e);
        let step: RevisionStep = RevisionStep { revision: rv, fired, before: e };
        proof {
            reveal(step_at);
            assert(step == step_at(*root, *f, e0, i as int));
        }
        log.push(step);
        e = rv.apply(root, f, e);
        i += 1;
    }
    (e, log)
}

/// Applies all revisions to `leaf`, as `revise` does, and says for each
/// revision, in their order, whether its condition held and what the
/// evaluation was before it.
pub fn revise_traced(root: &RootEvaluation, umv: UndoableMove, leaf: &mut LeafEvaluation) -> (r: Vec<
    RevisionStep,
>)
    requires
        readable(umv),
        squares_ok(*root, *old(leaf)),
    ensures
        *final(leaf) == revised(*root, umv, *old(leaf)),
        squares_ok(*root, *final(leaf)),
        r@ == steps(*root, umv, *old(leaf)),
{
    let f: MoveFacts = move_facts(root, umv);
    let ghost e0 = *leaf;
    let (_, log) = run_revisions(root, &f, *leaf);
    revise(root, umv, leaf);
    proof {
        lemma_steps(log@, *root, umv, e0);
    }
    log
}

/// A step of the comparison of a candidate with the best so far.
#[derive(Clone, Copy, Debug, PartialEq, Eq, Structural, Hash)]
pub enum ComparisonStep {
    /// One of the two leaves a piece worth 40 or more to be taken, the
    /// other does not.
    Suicide,
    /// The candidate stands to lose more and captures less.
    NegaWorseCapturePriceWorse,
    /// The candidate stands to lose more and captures more.
    NegaWorseCapturePriceBetter,
    /// The candidate stands to lose more and captures the same.
    NegaWorseCapturePriceEqual,
    /// The candidate stands to lose less, and the best stands to lose
    /// between 30 and 79.
    NegaBetterExtreme,
    /// The candidate stands to lose less and captures more.
    NegaBetterCapturePriceBetter,
    /// The candidate stands to lose less and captures less, and what it
    /// saves differs from what it gives up.
    NegaBetterCapturePriceWorse,
    /// The candidate stands to lose less and captures the same.
    NegaBetterCapturePriceEqual,
    /// Both stand to lose the same, and capture differently.
    NegaEqual,
    /// The numbers of promoted pieces of COM differ.
    ComPromoCount,
    /// What COM stands to win differs.
    ScorePosi,
    /// The prices of the best advantage square differ.
    AdvPrice,
    /// The candidate is a drop, and the root was not answering a check: a
    /// drop loses.
    PreferWalk,
    /// The candidate is a drop, and the root was answering a check: the
    /// cheaper origin wins.
    DropPreferCheap,
    /// What COM has around HUM's king differs.
    WalkHumKingThreatAround25,
    /// What COM has around its own king differs.
    WalkComKingSafetyAround25,
    /// What HUM has around COM's king differs.
    WalkComKingThreatAround25,
    /// The numbers of loose pieces of COM differ.
    WalkComLooseCount,
    /// The piece starts at distance 3 or more from COM's king, and the
    /// distances of the destinations to HUM's king differ.
    WalkDstToHumKing,
    /// Nothing else told the two apart: the origin farther from COM's king
    /// wins.
    WalkSrcToComKing,
}

/// The step at which what is at stake tells the two apart, if it does.
pub open spec fn stake_step(root: RootEvaluation, best: LeafEvaluation, cand: LeafEvaluation) -> Option<
    ComparisonStep,
> {
    if cand.disadv_price >= 40 && best.disadv_price < 40 {
        Some(ComparisonStep::Suicide)
    } else if cand.disadv_price < 40 && best.disadv_price >= 40 {
        Some(ComparisonStep::Suicide)
    } else if cand.score_nega > best.score_nega {
        if cand.capture_price < best.capture_price {
            Some(ComparisonStep::NegaWorseCapturePriceWorse)
        } else if cand.capture_price > best.capture_price {
            Some(ComparisonStep::NegaWorseCapturePriceBetter)
        } else {
            Some(ComparisonStep::NegaWorseCapturePriceEqual)
        }
    } else if cand.score_nega < best.score_nega {
        if 30 <= best.score_nega < 80 {
            Some(ComparisonStep::NegaBetterExtreme)
        } else if cand.capture_price > best.capture_price {
            Some(ComparisonStep::NegaBetterCapturePriceBetter)
        } else if cand.capture_price < best.capture_price {
            if best.score_nega - cand.score_nega != best.capture_price - cand.capture_price {
                Some(ComparisonStep::NegaBetterCapturePriceWorse)
            } else {
                None
            }
        } else if root.power_com >= 18 && cand.capture_price == 0 && cand.score_posi
            < best.score_posi {
            if best.score_nega - cand.score_nega != best.score_posi - cand.score_posi {
                Some(ComparisonStep::NegaBetterCapturePriceEqual)
            } else {
                None
            }
        } else {
            Some(ComparisonStep::NegaBetterCapturePriceEqual)
        }
    } else if cand.capture_price != best.capture_price {
        Some(ComparisonStep::NegaEqual)
    } else {
        None
    }
}

/// The tie-break that tells two moves that are no drops apart.
pub open spec fn walk_step(best: LeafEvaluation, cand: LeafEvaluation) -> ComparisonStep {
    if cand.hum_king_threat_around25 != best.hum_king_threat_around25 {
        ComparisonStep::WalkHumKingThreatAround25
    } else if cand.com_king_safety_around25 != best.com_king_safety_around25 {
        ComparisonStep::WalkComKingSafetyAround25
    } else if cand.com_king_threat_around25 != best.com_king_threat_around25 {
        ComparisonStep::WalkComKingThreatAround25
    } else if cand.com_loose_count != best.com_loose_count {
        ComparisonStep::WalkComLooseCount
    } else if cand.src_to_com_king >= 3 && cand.dst_to_hum_king != best.dst_to_hum_king {
        ComparisonStep::WalkDstToHumKing
    } else {
        ComparisonStep::WalkSrcToComKing
    }
}

/// The step of the comparison that decides between the candidate `cand`,
/// reached by `umv`, and `best`: the first that tells the two apart.
pub open spec fn decided_by(
    root: RootEvaluation,
    best: LeafEvaluation,
    cand: LeafEvaluation,
    umv: UndoableMove,
) -> ComparisonStep {
    match stake_step(root, best, cand) {
        Some(step) => step,
        None => if cand.com_promo_count != best.com_promo_count {
            ComparisonStep::ComPromoCount
        } else if cand.score_posi != best.score_posi {
            ComparisonStep::ScorePosi
        } else if cand.adv_price != best.adv_price {
            ComparisonStep::AdvPrice
        } else if umv.spec_is_drop() {
            if root.disadv_price < 30 {
                ComparisonStep::PreferWalk
            } else {
                ComparisonStep::DropPreferCheap
            }
        } else {
            walk_step(best, cand)
        },
    }
}

/// What is at stake gives a verdict exactly when it has a step that
/// decides.
pub proof fn lemma_stake_step(root: RootEvaluation, best: LeafEvaluation, cand: LeafEvaluation)
    ensures
        stake_step(root, best, cand).is_some() == stake_verdict(root, best, cand).is_some(),
{
}

/// The step at which what is at stake tells the two apart, if it does.
pub fn stake_step_of(root: &RootEvaluation, best: &LeafEvaluation, cand: &LeafEvaluation) -> (r: Option<
    ComparisonStep,
>)
    ensures
        r == stake_step(*root, *best, *cand),
{
    if cand.disadv_price >= 40 && best.disadv_price < 40 {
        return Some(ComparisonStep::Suicide);
    }
    if cand.disadv_price < 40 && best.disadv_price >= 40 {
        return Some(ComparisonStep::Suicide);
    }
    if cand.score_nega > best.score_nega {
        if cand.capture_price < best.capture_price {
            Some(ComparisonStep::NegaWorseCapturePriceWorse)
        } else if cand.capture_price > best.capture_price {
            Some(ComparisonStep::NegaWorseCapturePriceBetter)
        } else {
            Some(ComparisonStep::NegaWorseCapturePriceEqual)
        }
    } else if cand.score_nega < best.score_nega {
        if 30 <= best.score_nega && best.score_nega < 80 {
            return Some(ComparisonStep::NegaBetterExtreme);
        }
        if cand.capture_price > best.capture_price {
            Some(ComparisonStep::NegaBetterCapturePriceBetter)
        } else if cand.capture_price < best.capture_price {
            if best.score_nega - cand.score_nega != best.capture_price - cand.capture_price {
                Some(ComparisonStep::NegaBetterCapturePriceWorse)
            } else {
                None
            }
        } else if root.power_com >= 18 && cand.capture_price == 0 && cand.score_posi
            < best.score_posi {
            if best.score_nega - cand.score_nega != best.score_posi - cand.score_posi {
                Some(ComparisonStep::NegaBetterCapturePriceEqual)
            } else {
                None
            }
        } else {
            Some(ComparisonStep::NegaBetterCapturePriceEqual)
        }
    } else if cand.capture_price != best.capture_price {
        Some(ComparisonStep::NegaEqual)
    } else {
        None
    }
}

/// The tie-break that tells two moves that are no drops apart.
pub fn walk_step_of(best: &LeafEvaluation, cand: &LeafEvaluation) -> (r: ComparisonStep)
    ensures
        r == walk_step(*best, *cand),
{
    if cand.hum_king_threat_around25 != best.hum_king_threat_around25 {
        ComparisonStep::WalkHumKingThreatAround25
    } else if cand.com_king_safety_around25 != best.com_king_safety_around25 {
        ComparisonStep::WalkComKingSafetyAround25
    } else if cand.com_king_threat_around25 != best.com_king_threat_around25 {
        ComparisonStep::WalkComKingThreatAround25
    } else if cand.com_loose_count != best.com_loose_count {
        ComparisonStep::WalkComLooseCount
    } else if cand.src_to_com_king >= 3 && cand.dst_to_hum_king != best.dst_to_hum_king {
        ComparisonStep::WalkDstToHumKing
    } else {
        ComparisonStep::WalkSrcToComKing
    }
}

/// Whether the candidate `cand`, reached by `umv`, is better than `best`,
/// as `improves_best` says, and the step of the comparison that decided.
pub fn improves_best_traced(
    root: &RootEvaluation,
    best: &LeafEvaluation,
    cand: &LeafEvaluation,
    umv: UndoableMove,
    best_src_value: u8,
) -> (r: (bool, ComparisonStep))
    requires
        umv.spec_is_drop() ==> 1 <= umv.from_field() <= 7,
    ensures
        r.0 == improves(*root, *best, *cand, umv, best_src_value),
        r.1 == decided_by(*root, *best, *cand, umv),
{
    let step: ComparisonStep = match stake_step_of(root, best, cand) {
        Some(s) => s,
        None => {
            if cand.com_promo_count != best.com_promo_count {
                ComparisonStep::ComPromoCount
            } else if cand.score_posi != best.score_posi {
                ComparisonStep::ScorePosi
            } else if cand.adv_price != best.adv_price {
                ComparisonStep::AdvPrice
            } else if umv.is_drop() {
                if root.disadv_price < 30 {
                    ComparisonStep::PreferWalk
                } else {
                    ComparisonStep::DropPreferCheap
                }
            } else {
                walk_step_of(best, cand)
            }
        },
    };
    let better: bool = improves_best(root, best, cand, umv, best_src_value);
    (better, step)
}

/// Why a candidate is not evaluated.
#[derive(Clone, Copy, Debug, PartialEq, Eq, Structural, Hash)]
pub enum Rejection {
    /// The candidate is a pawn drop that mates.
    DropPawnMate,
    /// The candidate puts a piece on a disadvantage square without
    /// capturing, while the root was not answering a check and the
    /// candidate does not mate.
    Sacrifice,
}

/// Why the candidate `umv`, which has led to position `pos`, is rejected,
/// if it is.
pub open spec fn rejection(pos: Position, level: u8, root: RootEvaluation, umv: UndoableMove) -> Option<
    Rejection,
> {
    let adv = adv_scan(pos, level);
    let dis = disadv_scan(pos, umv.spec_dst());
    let sacrifice = capture_price_of(umv) == 0 && dis.3;
    let mated = dis.1 < 30 && adv.1 >= 30 && umv.spec_dst().dist(root.king_sq@[0]) < 3 && !can_evade(
        pos,
        true,
    );
    if mated && umv.spec_is_drop() && umv.dropped() == PieceKind::Pawn {
        Some(Rejection::DropPawnMate)
    } else if sacrifice && root.disadv_price < 30 && !mated {
        Some(Rejection::Sacrifice)
    } else {
        None
    }
}

/// A candidate is rejected exactly when it has no evaluation.
pub proof fn lemma_rejection(pos: Position, level: u8, root: RootEvaluation, umv: UndoableMove)
    ensures
        rejection(pos, level, root, umv).is_some() == leaf_of(pos, level, root, umv).is_none(),
{
}

/// Why the candidate `umv`, which has led to position `pos`, is rejected,
/// if it is.  The position is left as it was.
pub fn rejection_of(pos: &mut Position, level: u8, root: &RootEvaluation, umv: UndoableMove) -> (r: Option<
    Rejection,
>)
    requires
        old(pos).wf(),
        readable(umv),
        root.king_sq@[0].on_board(),
        root.king_sq@[1].on_board(),
    ensures
        *final(pos) == *old(pos),
        r == rejection(*old(pos), level, *root, umv),
{
    let pc: Piece = umv.piece_captured();
    let capture_price: u8 = if pc == Piece::NoPiece { 0 } else { naitou_piece_price_a(pc.kind()) };
    let dst: Square = umv.dst();
    let (_, adv_price, _) = scan_advantage(pos, level);
    let (_, disadv_price, _, lands) = scan_disadvantage(pos, dst);
    let sacrifice: bool = capture_price == 0 && lands;
    let near: bool = dst.distance(root.king_sq[0]) < 3;
    let mated: bool = disadv_price < 30 && adv_price >= 30 && near && position_is_checkmated_naitou(
        pos,
    );
    if mated && umv.is_drop() && umv.dropped_piece_kind() == PieceKind::Pawn {
        Some(Rejection::DropPawnMate)
    } else if sacrifice && root.disadv_price < 30 && !mated {
        Some(Rejection::Sacrifice)
    } else {
        None
    }
}

/// What happened to a candidate that was evaluated.
pub struct CandidateTrace {
    /// The candidate.
    pub mv: Move,
    /// Its evaluation before the revisions.
    pub initial: LeafEvaluation,
    /// What happened at the turn of each revision, in their order.
    pub steps: Vec<RevisionStep>,
    /// Its evaluation after the revisions.
    pub revised: LeafEvaluation,
    /// Whether the candidate became the best so far.
    pub taken: bool,
    /// The step of the comparison that decided; none when the candidate
    /// mates, which is taken without comparison.
    pub step: Option<ComparisonStep>,
}

/// What happened to a candidate.
pub enum CandidateOutcome {
    /// The candidate was not looked at: the search was over, or the move
    /// cannot be played.
    Skipped,
    /// The candidate was rejected.
    Rejected(Rejection),
    /// The candidate was evaluated and compared.
    Evaluated(CandidateTrace),
}

/// What the trace of a candidate holds: `t` is what happened to `mv` in
/// position `pos` against the search state `st`.
pub open spec fn traces(
    t: CandidateTrace,
    pos: Position,
    level: u8,
    root: RootEvaluation,
    st: SearchState,
    mv: Move,
) -> bool {
    let umv = Position::undo_record(pos.board@, mv);
    &&& t.mv == mv
    &&& leaf_of(after(pos, mv), level, root, umv) == Some(t.initial)
    &&& t.steps@ == steps(root, umv, t.initial)
    &&& t.revised == revised(root, umv, t.initial)
    &&& t.taken == (t.revised.hum_is_checkmated || improves(
        root,
        st.best_eval,
        t.revised,
        umv,
        st.best_src_value,
    ))
    &&& t.step == (if t.revised.hum_is_checkmated {
        None
    } else {
        Some(decided_by(root, st.best_eval, t.revised, umv))
    })
}

/// Tries one candidate, as `try_candidate` does, and says what happened to
/// it.  The position is left as it was.
pub fn try_candidate_traced(
    pos: &mut Position,
    level: u8,
    root: &RootEvaluation,
    st: SearchState,
    mv: Move,
) -> (r: (SearchState, CandidateOutcome))
    requires
        old(pos).wf(),
        root.king_sq@[0].on_board(),
        root.king_sq@[1].on_board(),
        st.best_mv.is_some() ==> old(pos).playable(st.best_mv.unwrap()),
    ensures
        *final(pos) == *old(pos),
        r.0 == search_step(*old(pos), level, *root, st, mv),
        r.0.best_mv.is_some() ==> old(pos).playable(r.0.best_mv.unwrap()),
        match r.1 {
            CandidateOutcome::Skipped => st.done || !old(pos).playable(mv),
            CandidateOutcome::Rejected(why) => !st.done && old(pos).playable(mv) && rejection(
                after(*old(pos), mv),
                level,
                *root,
                Position::undo_record(old(pos).board@, mv),
            ) == Some(why),
            CandidateOutcome::Evaluated(t) => !st.done && old(pos).playable(mv) && traces(
                t,
                *old(pos),
                level,
                *root,
                st,
                mv,
            ),
        },
{
    if st.done {
        return (st, CandidateOutcome::Skipped);
    }
    if !pos.is_playable(mv) {
        return (st, CandidateOutcome::Skipped);
    }
    let ghost p0 = *pos;
    proof {
        lemma_record_readable(p0, mv);
    }
    let umv: UndoableMove = pos.do_move(mv);
    let ghost p1 = *pos;
    proof {
        lemma_after(p0, mv, p1, umv);
        lemma_rejection(p1, level, *root, umv);
    }
    let leaf: Option<LeafEvaluation> = leaf_evaluation(pos, level, root, umv);
    let out: Option<(LeafEvaluation, Vec<RevisionStep>, LeafEvaluation)> = match leaf {
        None => None,
        Some(e) => {
            let mut cand: LeafEvaluation = e;
            let log: Vec<RevisionStep> = revise_traced(root, umv, &mut cand);
            Some((e, log, cand))
        },
    };
    let why: Option<Rejection> = match leaf {
        None => rejection_of(pos, level, root, umv),
        Some(_) => None,
    };
    pos.undo_move(umv);
    proof {
        lemma_undo_restores(p0, mv, p1, umv, *pos);
    }
    match out {
        None => {
            match why {
                Some(w) => (st, CandidateOutcome::Rejected(w)),
                None => (st, CandidateOutcome::Skipped),
            }
        },
        Some((initial, log, cand)) => {
            let mated: bool = cand.hum_is_checkmated;
            let (better, step) = improves_best_traced(root, &st.best_eval, &cand, umv, st.best_src_value);
            let taken: bool = mated || better;
            let next: SearchState = if taken {
                SearchState {
                    best_mv: Some(mv),
                    best_eval: cand,
                    best_src_value: if umv.is_drop() {
                        naitou_com_drop_src_value(umv.dropped_piece_kind())
                    } else {
                        0
                    },
                    done: mated,
                }
            } else {
                SearchState {
                    best_mv: st.best_mv,
                    best_eval: st.best_eval,
                    best_src_value: st.best_src_value,
                    done: mated,
                }
            };
            let t: CandidateTrace = CandidateTrace {
                mv,
                initial,
                steps: log,
                revised: cand,
                taken,
                step: if mated { None } else { Some(step) },
            };
            (next, CandidateOutcome::Evaluated(t))
        },
    }
}

} // verus!
