//! The search: every candidate of COM is played, evaluated, revised and
//! compared with the best so far, in the order of the generator.

use vstd::prelude::*;
use crate::shogi::Side;
use crate::moves::{Move, UndoableMove};
use crate::position::{Position, lemma_position_determined, lemma_undo_restores};
use crate::naitou::{drop_src_value, naitou_com_drop_src_value};
use crate::movelist::{MoveArray, capped};
use crate::movegen::com::{com_moves, generate_moves_com};
use crate::engine::eval::RootEvaluation;
use crate::engine::leaf::{LeafEvaluation, leaf_of, leaf_evaluation, readable};
use crate::engine::revise::{revised, revise};
use crate::engine::compare::{improves, improves_best};

verus! {

/// What the search has found: a move with what goes with it, or one of the
/// two ways in which the game ends without a move of COM.
#[derive(Clone, Copy, Debug, PartialEq, Eq, Structural, Hash)]
pub enum EngineResponseRaw {
    /// A move; it may mate HUM.
    Move(EngineResponseRawMove),
    /// COM resigns.
    HumWin,
    /// HUM has left its king to be taken.
    HumSuicide,
}

/// A move found by the search.
#[derive(Clone, Copy, Debug, PartialEq, Eq, Structural, Hash)]
pub struct EngineResponseRawMove {
    pub best_mv: Move,
    /// The root had neither advantage nor disadvantage squares, and the
    /// move captures nothing.
    pub quiet: bool,
    /// The book must not be asked.
    pub force_skip_book: bool,
    /// The move mates HUM.
    pub hum_is_checkmated: bool,
}

/// How far the search has come.
pub struct SearchState {
    /// The best candidate so far.
    pub best_mv: Option<Move>,
    /// Its evaluation; the worst evaluation while there is none.
    pub best_eval: LeafEvaluation,
    /// The origin value of the best candidate: the value of the dropped
    /// kind for a drop, 0 for another move, and what was carried over from
    /// the last search while there is none.
    pub best_src_value: u8,
    /// A mate has been found; no further candidate is tried.
    pub done: bool,
}

/// The position after `mv`.
pub open spec fn after(pos: Position, mv: Move) -> Position {
    choose|p: Position| pos.moved(mv, p, Position::undo_record(pos.board@, mv))
}

/// The position that a move leads to is the position after the move.
pub proof fn lemma_after(p0: Position, mv: Move, p1: Position, umv: UndoableMove)
    requires
        p0.moved(mv, p1, umv),
    ensures
        p1 == after(p0, mv),
        umv == Position::undo_record(p0.board@, mv),
{
    let a = after(p0, mv);
    assert(p0.moved(mv, a, Position::undo_record(p0.board@, mv)));
    lemma_after_same(p0, mv, p1, a);
}

/// Two positions that the same move leads to are equal.
pub proof fn lemma_after_same(p0: Position, mv: Move, p1: Position, p2: Position)
    requires
        p0.moved(mv, p1, Position::undo_record(p0.board@, mv)),
        p0.moved(mv, p2, Position::undo_record(p0.board@, mv)),
    ensures
        p1 == p2,
{
    let us = p0.side_to_move;
    assert(p1.hands.of(us)@ == p2.hands.of(us)@);
    assert(p1.hands.of(us.opp())@ == p2.hands.of(us.opp())@);
    lemma_position_determined(p1, p2);
}

/// The revised evaluation of the position after `mv`, if `mv` can be
/// played and the evaluation does not reject it.
pub open spec fn candidate_of(pos: Position, level: u8, root: RootEvaluation, mv: Move) -> Option<
    LeafEvaluation,
> {
    if !pos.playable(mv) {
        None
    } else {
        let umv = Position::undo_record(pos.board@, mv);
        match leaf_of(after(pos, mv), level, root, umv) {
            None => None,
            Some(leaf) => Some(revised(root, umv, leaf)),
        }
    }
}

/// The search after one more candidate.
///
/// A candidate that cannot be played (it would take a king), and every
/// candidate after a mate has been found, changes nothing; neither does a
/// candidate that the evaluation rejects.  Otherwise the candidate becomes
/// the best when it mates or when the comparison prefers it.
pub open spec fn search_step(
    pos: Position,
    level: u8,
    root: RootEvaluation,
    st: SearchState,
    mv: Move,
) -> SearchState {
    if st.done {
        st
    } else {
        match candidate_of(pos, level, root, mv) {
            None => st,
            Some(cand) => {
                let umv = Position::undo_record(pos.board@, mv);
                if cand.hum_is_checkmated || improves(root, st.best_eval, cand, umv, st.best_src_value) {
                    SearchState {
                        best_mv: Some(mv),
                        best_eval: cand,
                        best_src_value: if umv.spec_is_drop() {
                            drop_src_value(umv.dropped()) as u8
                        } else {
                            0
                        },
                        done: cand.hum_is_checkmated,
                    }
                } else {
                    SearchState { done: cand.hum_is_checkmated, ..st }
                }
            },
        }
    }
}

/// The search after the first `n` candidates of `mvs`.
pub open spec fn search_upto(
    pos: Position,
    level: u8,
    root: RootEvaluation,
    st0: SearchState,
    mvs: Seq<Move>,
    n: int,
) -> SearchState
    decreases n,
{
    if n <= 0 {
        st0
    } else {
        search_step(pos, level, root, search_upto(pos, level, root, st0, mvs, n - 1), mvs[n - 1])
    }
}

/// What the search answers at its end: COM resigns when the best candidate
/// leaves a piece worth 31 or more to be taken or leaves COM's king
/// attacked, and when there is no candidate; otherwise it plays the best
/// candidate.
pub open spec fn search_answer(root: RootEvaluation, st: SearchState) -> EngineResponseRaw {
    if st.best_eval.disadv_price >= 31 || st.best_eval.is_suicide {
        EngineResponseRaw::HumWin
    } else {
        match st.best_mv {
            None => EngineResponseRaw::HumWin,
            Some(mv) => EngineResponseRaw::Move(
                EngineResponseRawMove {
                    best_mv: mv,
                    quiet: root.adv_price == 0 && root.disadv_price == 0 && st.best_eval.capture_price
                        == 0,
                    force_skip_book: st.best_eval.score_posi != st.best_eval.adv_price
                        && st.best_eval.score_posi >= 8,
                    hum_is_checkmated: st.best_eval.hum_is_checkmated,
                },
            ),
        }
    }
}

/// The state from which the search starts.
pub open spec fn search_start(best_src_value: u8) -> SearchState {
    SearchState {
        best_mv: None,
        best_eval: LeafEvaluation::worst_spec(),
        best_src_value,
        done: false,
    }
}

/// The answer of the search in position `pos`, and the origin value that it
/// carries over to the next search.  When the root shows that HUM's king
/// can be taken (an advantage price of 30 or more), no candidate is tried.
pub open spec fn search_of(pos: Position, level: u8, root: RootEvaluation, best_src_value: u8) -> (
    EngineResponseRaw,
    u8,
) {
    if root.adv_price >= 30 {
        (EngineResponseRaw::HumSuicide, best_src_value)
    } else {
        let mvs = capped(com_moves(pos.board@, pos.hands.of(Side::Com)));
        let st = search_upto(pos, level, root, search_start(best_src_value), mvs, mvs.len() as int);
        (search_answer(root, st), st.best_src_value)
    }
}

/// The record of a move that can be played can be read as the record of a
/// candidate.
pub proof fn lemma_record_readable(pos: Position, mv: Move)
    requires
        pos.playable(mv),
    ensures
        readable(Position::undo_record(pos.board@, mv)),
        Position::undo_record(pos.board@, mv).spec_is_drop() == mv.spec_is_drop(),
        mv.spec_is_drop() ==> 1 <= Position::undo_record(pos.board@, mv).from_field() <= 7,
{
    let umv = Position::undo_record(pos.board@, mv);
    crate::moves::lemma_move_low(mv.0);
    if !mv.spec_is_drop() {
        let ps = pos.board@[mv.spec_src().0 as int];
        let pc = pos.board@[mv.spec_dst().0 as int];
        crate::moves::lemma_move_fields((mv.0 % 65536) as u32, ps.value() as u32, pc.value() as u32);
        assert(umv.spec_piece_src() == ps);
    }
}

/// Plays `mv`, evaluates and revises the position, and takes the move
/// back.  Gives nothing when `mv` cannot be played or the evaluation
/// rejects it.  The position is left as it was.
pub fn evaluate_candidate(pos: &mut Position, level: u8, root: &RootEvaluation, mv: Move) -> (r: Option<
    LeafEvaluation,
>)
    requires
        old(pos).wf(),
        root.king_sq@[0].on_board(),
        root.king_sq@[1].on_board(),
    ensures
        *final(pos) == *old(pos),
        r == candidate_of(*old(pos), level, *root, mv),
{
    if !pos.is_playable(mv) {
        return None;
    }
    let ghost p0 = *pos;
    proof {
        lemma_record_readable(p0, mv);
    }
    let umv: UndoableMove = pos.do_move(mv);
    let ghost p1 = *pos;
    proof {
        lemma_after(p0, mv, p1, umv);
    }
    let leaf: Option<LeafEvaluation> = leaf_evaluation(pos, level, root, umv);
    let r: Option<LeafEvaluation> = match leaf {
        None => None,
        Some(e) => {
            let mut cand: LeafEvaluation = e;
            revise(root, umv, &mut cand);
            Some(cand)
        },
    };
    pos.undo_move(umv);
    proof {
        lemma_undo_restores(p0, mv, p1, umv, *pos);
    }
    r
}

/// Tries one candidate.  The position is left as it was.
pub fn try_candidate(
    pos: &mut Position,
    level: u8,
    root: &RootEvaluation,
    st: SearchState,
    mv: Move,
) -> (r: SearchState)
    requires
        old(pos).wf(),
        root.king_sq@[0].on_board(),
        root.king_sq@[1].on_board(),
        st.best_mv.is_some() ==> old(pos).playable(st.best_mv.unwrap()),
    ensures
        *final(pos) == *old(pos),
        r == search_step(*old(pos), level, *root, st, mv),
        r.best_mv.is_some() ==> old(pos).playable(r.best_mv.unwrap()),
{
    if st.done {
        return st;
    }
    match evaluate_candidate(pos, level, root, mv) {
        None => st,
        Some(cand) => {
            proof {
                lemma_record_readable(*pos, mv);
            }
            let umv: UndoableMove = record_of(pos, mv);
            let mated: bool = cand.hum_is_checkmated;
            if mated || improves_best(root, &st.best_eval, &cand, umv, st.best_src_value) {
                SearchState {
                    best_mv: Some(mv),
                    best_eval: cand,
                    best_src_value: if umv.is_drop() {
                        naitou_com_drop_src_value(umv.dropped_piece_kind())
                    } else {
                        0
                    },
                    done: mated,
                }
            } else {
                SearchState {
                    best_mv: st.best_mv,
                    best_eval: st.best_eval,
                    best_src_value: st.best_src_value,
                    done: mated,
                }
            }
        },
    }
}

/// What would be kept of `mv` to take it back.
pub fn record_of(pos: &Position, mv: Move) -> (umv: UndoableMove)
    requires
        pos.playable(mv),
    ensures
        umv == Position::undo_record(pos.board@, mv),
{
    if mv.is_drop() {
        UndoableMove::from_move_drop(mv)
    } else {
        let pc_src = pos.board().get(mv.src());
        let pc_dst = pos.board().get(mv.dst());
        proof {
            crate::moves::lemma_move_low(mv.0);
            crate::moves::lemma_move_fields(
                (mv.0 % 65536) as u32,
                pc_src.value() as u32,
                pc_dst.value() as u32,
            );
        }
        UndoableMove::from_move_walk(mv, pc_src, pc_dst)
    }
}

/// The search in position `pos`, with COM to move: the answer, and the
/// origin value to carry over.  The position is left as it was.
pub fn search(pos: &mut Position, level: u8, root: &RootEvaluation, best_src_value: u8) -> (r: (
    EngineResponseRaw,
    u8,
))
    requires
        old(pos).wf(),
        old(pos).side_to_move == Side::Com,
        root.king_sq@[0].on_board(),
        root.king_sq@[1].on_board(),
    ensures
        *final(pos) == *old(pos),
        r == search_of(*old(pos), level, *root, best_src_value),
        match r.0 {
            EngineResponseRaw::Move(m) => old(pos).playable(m.best_mv),
            _ => true,
        },
{
    if root.adv_price >= 30 {
        return (EngineResponseRaw::HumSuicide, best_src_value);
    }
    let mvs: MoveArray = generate_moves_com(pos);
    let n: usize = mvs.len();
    let mut st: SearchState = SearchState {
        best_mv: None,
        best_eval: LeafEvaluation::worst(),
        best_src_value,
        done: false,
    };
    let mut i: usize = 0;
    while i < n
        invariant
            i <= n,
            n == mvs@.len(),
            *pos == *old(pos),
            pos.wf(),
            root.king_sq@[0].on_board(),
            root.king_sq@[1].on_board(),
            mvs@ == capped(com_moves(pos.board@, pos.hands.of(Side::Com))),
            st == search_upto(*pos, level, *root, search_start(best_src_value), mvs@, i as int),
            st.best_mv.is_some() ==> pos.playable(st.best_mv.unwrap()),
        decreases n - i,
    {
        let mv: Move = mvs.get(i);
        st = try_candidate(pos, level, root, st, mv);
        i += 1;
    }
    let answer: EngineResponseRaw = if st.best_eval.disadv_price >= 31 || st.best_eval.is_suicide {
        EngineResponseRaw::HumWin
    } else {
        match st.best_mv {
            None => EngineResponseRaw::HumWin,
            Some(mv) => EngineResponseRaw::Move(
                EngineResponseRawMove {
                    best_mv: mv,
                    quiet: root.adv_price == 0 && root.disadv_price == 0 && st.best_eval.capture_price
                        == 0,
                    force_skip_book: st.best_eval.score_posi != st.best_eval.adv_price
                        && st.best_eval.score_posi >= 8,
                    hum_is_checkmated: st.best_eval.hum_is_checkmated,
                },
            ),
        }
    };
    (answer, st.best_src_value)
}

} // verus!
