//! The comparison of a candidate with the best candidate so far.
//!
//! The comparison looks first at which of the two leaves COM's king in
//! danger, then at what COM stands to lose against what the move captures,
//! and then runs down a list of tie-breaks; the first step that tells the
//! two apart decides.

use vstd::prelude::*;
use crate::piece::PieceKind;
use crate::moves::UndoableMove;
use crate::naitou::{drop_src_value, naitou_com_drop_src_value};
use crate::engine::eval::RootEvaluation;
use crate::engine::leaf::LeafEvaluation;

verus! {

/// The verdict of one tie-break: for `lhs` when it is greater, against it
/// when it is less, none when they are equal.
pub open spec fn tie(lhs: u8, rhs: u8) -> Option<bool> {
    if lhs > rhs {
        Some(true)
    } else if lhs < rhs {
        Some(false)
    } else {
        None
    }
}

/// The first verdict that is given, or `rest` when none is.
pub open spec fn or_else(first: Option<bool>, rest: bool) -> bool {
    match first {
        Some(b) => b,
        None => rest,
    }
}

/// The verdict on what is at stake, if it tells the two apart.
///
/// A candidate that leaves a piece worth 40 or more (the king) to be taken
/// loses against one that does not.  Otherwise what COM stands to lose is
/// compared.  A candidate that loses more must make up for it: by
/// capturing at least as much more, or, when both capture nothing and COM
/// has a power of 18, by winning more than it loses.  A candidate that
/// loses less wins at once when the best stands to lose between 30 and
/// 79, or when it captures more; when it captures less, or when both
/// capture nothing and it wins less (with a power of 18), what it saves is
/// weighed against what it gives up, and an even balance leaves the matter
/// open.  With equal losses the greater capture decides.
pub open spec fn stake_verdict(root: RootEvaluation, best: LeafEvaluation, cand: LeafEvaluation) -> Option<
    bool,
> {
    if cand.disadv_price >= 40 && best.disadv_price < 40 {
        Some(false)
    } else if cand.disadv_price < 40 && best.disadv_price >= 40 {
        Some(true)
    } else if cand.score_nega > best.score_nega {
        if cand.capture_price < best.capture_price {
            Some(false)
        } else if cand.capture_price > best.capture_price {
            Some(cand.capture_price - best.capture_price >= cand.score_nega - best.score_nega)
        } else {
            Some(
                root.power_com >= 18 && cand.capture_price == 0 && cand.score_posi > best.score_posi
                    && cand.score_posi - best.score_posi > cand.score_nega - best.score_nega,
            )
        }
    } else if cand.score_nega < best.score_nega {
        if 30 <= best.score_nega < 80 {
            Some(true)
        } else if cand.capture_price > best.capture_price {
            Some(true)
        } else if cand.capture_price < best.capture_price {
            tie(
                (best.score_nega - cand.score_nega) as u8,
                (best.capture_price - cand.capture_price) as u8,
            )
        } else if root.power_com >= 18 && cand.capture_price == 0 && cand.score_posi
            < best.score_posi {
            tie(
                (best.score_nega - cand.score_nega) as u8,
                (best.score_posi - cand.score_posi) as u8,
            )
        } else {
            Some(true)
        }
    } else {
        tie(cand.capture_price, best.capture_price)
    }
}

/// The verdict of the tie-breaks between two moves that are no drops: more
/// around HUM's king, more defence and less threat around COM's king,
/// fewer loose pieces; for a piece that starts at distance 3 or more from
/// COM's king, a destination nearer to HUM's king; and at last an origin
/// farther from COM's king.
pub open spec fn walk_verdict(best: LeafEvaluation, cand: LeafEvaluation) -> bool {
    or_else(
        tie(cand.hum_king_threat_around25, best.hum_king_threat_around25),
        or_else(
            tie(cand.com_king_safety_around25, best.com_king_safety_around25),
            or_else(
                tie(best.com_king_threat_around25, cand.com_king_threat_around25),
                or_else(
                    tie(best.com_loose_count, cand.com_loose_count),
                    or_else(
                        if cand.src_to_com_king >= 3 {
                            tie(best.dst_to_hum_king, cand.dst_to_hum_king)
                        } else {
                            None
                        },
                        cand.src_to_com_king > best.src_to_com_king,
                    ),
                ),
            ),
        ),
    )
}

/// The verdict for a drop that the earlier steps could not tell from the
/// best: a drop loses, unless the root was answering a check; then it wins
/// when the dropped kind is cheaper than the origin value carried over from
/// the last best move.
pub open spec fn drop_verdict(root: RootEvaluation, dropped: PieceKind, best_src_value: u8) -> bool {
    root.disadv_price >= 30 && drop_src_value(dropped) < best_src_value
}

/// Whether the candidate `cand`, reached by `umv`, is better than `best`.
pub open spec fn improves(
    root: RootEvaluation,
    best: LeafEvaluation,
    cand: LeafEvaluation,
    umv: UndoableMove,
    best_src_value: u8,
) -> bool {
    or_else(
        stake_verdict(root, best, cand),
        or_else(
            tie(cand.com_promo_count, best.com_promo_count),
            or_else(
                tie(cand.score_posi, best.score_posi),
                or_else(
                    tie(cand.adv_price, best.adv_price),
                    if umv.spec_is_drop() {
                        drop_verdict(root, umv.dropped(), best_src_value)
                    } else {
                        walk_verdict(best, cand)
                    },
                ),
            ),
        ),
    )
}

/// The verdict on what is at stake, if it tells the two apart.
pub fn stake(root: &RootEvaluation, best: &LeafEvaluation, cand: &LeafEvaluation) -> (r: Option<bool>)
    ensures
        r == stake_verdict(*root, *best, *cand),
{
    if cand.disadv_price >= 40 && best.disadv_price < 40 {
        return Some(false);
    }
    if cand.disadv_price < 40 && best.disadv_price >= 40 {
        return Some(true);
    }
    if cand.score_nega > best.score_nega {
        if cand.capture_price < best.capture_price {
            Some(false)
        } else if cand.capture_price > best.capture_price {
            let dcapture: u8 = cand.capture_price - best.capture_price;
            let dnega: u8 = cand.score_nega - best.score_nega;
            Some(dcapture >= dnega)
        } else {
            let improved: bool = if root.power_com >= 18 && cand.capture_price == 0
                && cand.score_posi > best.score_posi {
                let dposi: u8 = cand.score_posi - best.score_posi;
                let dnega: u8 = cand.score_nega - best.score_nega;
                dposi > dnega
            } else {
                false
            };
            Some(improved)
        }
    } else if cand.score_nega < best.score_nega {
        if 30 <= best.score_nega && best.score_nega < 80 {
            return Some(true);
        }
        if cand.capture_price > best.capture_price {
            Some(true)
        } else if cand.capture_price < best.capture_price {
            let dcapture: u8 = best.capture_price - cand.capture_price;
            let dnega: u8 = best.score_nega - cand.score_nega;
            tie_break(dnega, dcapture)
        } else if root.power_com >= 18 && cand.capture_price == 0 && cand.score_posi
            < best.score_posi {
            let dposi: u8 = best.score_posi - cand.score_posi;
            let dnega: u8 = best.score_nega - cand.score_nega;
            tie_break(dnega, dposi)
        } else {
            Some(true)
        }
    } else {
        tie_break(cand.capture_price, best.capture_price)
    }
}

/// The verdict of one tie-break.
pub fn tie_break(lhs: u8, rhs: u8) -> (r: Option<bool>)
    ensures
        r == tie(lhs, rhs),
{
    if lhs > rhs {
        Some(true)
    } else if lhs < rhs {
        Some(false)
    } else {
        None
    }
}

/// The verdict of the tie-breaks between two moves that are no drops.
pub fn walk_tie_breaks(best: &LeafEvaluation, cand: &LeafEvaluation) -> (r: bool)
    ensures
        r == walk_verdict(*best, *cand),
{
    match tie_break(cand.hum_king_threat_around25, best.hum_king_threat_around25) {
        Some(b) => {
            return b;
        },
        None => {},
    }
    match tie_break(cand.com_king_safety_around25, best.com_king_safety_around25) {
        Some(b) => {
            return b;
        },
        None => {},
    }
    match tie_break(best.com_king_threat_around25, cand.com_king_threat_around25) {
        Some(b) => {
            return b;
        },
        None => {},
    }
    match tie_break(best.com_loose_count, cand.com_loose_count) {
        Some(b) => {
            return b;
        },
        None => {},
    }
    if cand.src_to_com_king >= 3 {
        match tie_break(best.dst_to_hum_king, cand.dst_to_hum_king) {
            Some(b) => {
                return b;
            },
            None => {},
        }
    }
    cand.src_to_com_king > best.src_to_com_king
}

/// Whether the candidate `cand`, reached by `umv`, is better than `best`.
/// `best_src_value` is the origin value carried over from the last best
/// move.
pub fn improves_best(
    root: &RootEvaluation,
    best: &LeafEvaluation,
    cand: &LeafEvaluation,
    umv: UndoableMove,
    best_src_value: u8,
) -> (r: bool)
    requires
        umv.spec_is_drop() ==> 1 <= umv.from_field() <= 7,
    ensures
        r == improves(*root, *best, *cand, umv, best_src_value),
{
    match stake(root, best, cand) {
        Some(b) => {
            return b;
        },
        None => {},
    }
    match tie_break(cand.com_promo_count, best.com_promo_count) {
        Some(b) => {
            return b;
        },
        None => {},
    }
    match tie_break(cand.score_posi, best.score_posi) {
        Some(b) => {
            return b;
        },
        None => {},
    }
    match tie_break(cand.adv_price, best.adv_price) {
        Some(b) => {
            return b;
        },
        None => {},
    }
    if umv.is_drop() {
        if root.disadv_price < 30 {
            return false;
        }
        let value: u8 = naitou_com_drop_src_value(umv.dropped_piece_kind());
        value < best_src_value
    } else {
        walk_tie_breaks(best, cand)
    }
}

} // verus!
