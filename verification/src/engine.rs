//! The engine: it keeps one position, the progress of the game and the
//! state of the opening book, and answers each move of HUM with a move of
//! COM.

pub mod eval;
pub mod leaf;
pub mod revise;
pub mod compare;
pub mod search;
pub mod book_use;
pub mod fired;

use vstd::prelude::*;
use crate::shogi::{Side, Square};
use crate::piece::PieceKind;
use crate::moves::{Move, UndoableMove};
use crate::position::{Position, lemma_position_determined, lemma_undo_restores};
use crate::attack::attack_count;
use crate::book::{BookState, Formation};
use crate::naitou::Handicap;
use crate::engine::eval::{
    RootEvaluation, root_of, root_evaluation, adv_upto, disadv_upto, advantage_squares,
    disadvantage_squares,
};
use crate::engine::leaf::{LeafEvaluation, leaf_of, leaf_evaluation, readable};
use crate::engine::revise::{revised, revise, squares_ok};
use crate::engine::compare::{improves, improves_best};
use crate::engine::search::{
    EngineResponseRaw, EngineResponseRawMove, after, lemma_after, search, search_of,
};
use crate::engine::book_use::{
    book_disadv,
    book_legal,
    book_move_disadv,
    book_move_legal,
    book_pick,
    pick_book_move,
};

verus! {

/// What is kept of one step to take it back.
#[derive(Clone, Copy, Debug, PartialEq, Eq, Structural)]
pub struct EngineUndoInfo {
    /// The move of HUM.
    pub umv_hum: UndoableMove,
    pub progress_ply: u8,
    pub progress_level: u8,
    pub progress_level_sub: u8,
    pub book_state: BookState,
    pub naitou_best_src_value: u8,
}

/// The answer of the engine to a move of HUM, with what is needed to take
/// the step back.
#[derive(Clone, Copy, Debug, PartialEq, Eq, Structural)]
pub enum EngineResponse {
    /// A move of COM.
    Move(EngineResponseMove),
    /// COM resigns; there is no move of COM.
    HumWin(EngineResponseHumWin),
    /// HUM has left its king to be taken; there is no move of COM.
    HumSuicide(EngineResponseHumSuicide),
    /// A move of COM that mates HUM.
    ComWin(EngineResponseComWin),
}

#[derive(Clone, Copy, Debug, PartialEq, Eq, Structural)]
pub struct EngineResponseMove {
    pub umv_com: UndoableMove,
    pub undo_info: EngineUndoInfo,
}

#[derive(Clone, Copy, Debug, PartialEq, Eq, Structural)]
pub struct EngineResponseHumWin {
    pub undo_info: EngineUndoInfo,
}

#[derive(Clone, Copy, Debug, PartialEq, Eq, Structural)]
pub struct EngineResponseHumSuicide {
    pub undo_info: EngineUndoInfo,
}

#[derive(Clone, Copy, Debug, PartialEq, Eq, Structural)]
pub struct EngineResponseComWin {
    pub umv_com: UndoableMove,
    pub undo_info: EngineUndoInfo,
}

/// The move of HUM leaves its own king attacked.
#[derive(Clone, Copy, Debug, PartialEq, Eq, Structural)]
pub struct SuicideMove;

impl EngineResponse {
    pub fn new_move(umv_com: UndoableMove, undo_info: EngineUndoInfo) -> (r: EngineResponse)
        ensures
            r == EngineResponse::Move(EngineResponseMove { umv_com, undo_info }),
    {
        EngineResponse::Move(EngineResponseMove { umv_com, undo_info })
    }

    pub fn new_hum_win(undo_info: EngineUndoInfo) -> (r: EngineResponse)
        ensures
            r == EngineResponse::HumWin(EngineResponseHumWin { undo_info }),
    {
        EngineResponse::HumWin(EngineResponseHumWin { undo_info })
    }

    pub fn new_hum_suicide(undo_info: EngineUndoInfo) -> (r: EngineResponse)
        ensures
            r == EngineResponse::HumSuicide(EngineResponseHumSuicide { undo_info }),
    {
        EngineResponse::HumSuicide(EngineResponseHumSuicide { undo_info })
    }

    pub fn new_com_win(umv_com: UndoableMove, undo_info: EngineUndoInfo) -> (r: EngineResponse)
        ensures
            r == EngineResponse::ComWin(EngineResponseComWin { umv_com, undo_info }),
    {
        EngineResponse::ComWin(EngineResponseComWin { umv_com, undo_info })
    }

    pub open spec fn spec_move_com(&self) -> Option<UndoableMove> {
        match *self {
            EngineResponse::Move(res) => Some(res.umv_com),
            EngineResponse::HumWin(_) => None,
            EngineResponse::HumSuicide(_) => None,
            EngineResponse::ComWin(res) => Some(res.umv_com),
        }
    }

    pub open spec fn spec_undo_info(&self) -> EngineUndoInfo {
        match *self {
            EngineResponse::Move(res) => res.undo_info,
            EngineResponse::HumWin(res) => res.undo_info,
            EngineResponse::HumSuicide(res) => res.undo_info,
            EngineResponse::ComWin(res) => res.undo_info,
        }
    }

    /// The move of COM, if the answer holds one.
    #[verifier::when_used_as_spec(spec_move_com)]
    pub fn move_com(&self) -> (r: Option<UndoableMove>)
        ensures
            r == self.spec_move_com(),
    {
        match self {
            EngineResponse::Move(res) => Some(res.umv_com),
            EngineResponse::HumWin(_) => None,
            EngineResponse::HumSuicide(_) => None,
            EngineResponse::ComWin(res) => Some(res.umv_com),
        }
    }

    /// What is needed to take the step back.
    #[verifier::when_used_as_spec(spec_undo_info)]
    pub fn undo_info(&self) -> (r: EngineUndoInfo)
        ensures
            r == self.spec_undo_info(),
    {
        match self {
            EngineResponse::Move(res) => res.undo_info,
            EngineResponse::HumWin(res) => res.undo_info,
            EngineResponse::HumSuicide(res) => res.undo_info,
            EngineResponse::ComWin(res) => res.undo_info,
        }
    }
}

impl EngineResponseMove {
    /// The move of COM.
    pub fn move_com(&self) -> (r: UndoableMove)
        ensures
            r == self.umv_com,
    {
        self.umv_com
    }
}

impl EngineResponseComWin {
    /// The move of COM.
    pub fn move_com(&self) -> (r: UndoableMove)
        ensures
            r == self.umv_com,
    {
        self.umv_com
    }
}

/// The engine.  It holds a position in which HUM is to move, except after
/// COM has resigned or HUM has left its king to be taken.
#[derive(Clone, Debug)]
pub struct Engine {
    pub pos: Position,
    /// The number of moves played, at most 100.
    pub progress_ply: u8,
    /// The phase of the game, 0 to 3.
    pub progress_level: u8,
    /// How often the search has answered with a move that is not quiet
    /// while the phase was 0; at 5 the phase becomes 1.
    pub progress_level_sub: u8,
    pub book_state: BookState,
    /// The origin value of the best move of the last search.  It is not
    /// set back before a search.
    pub naitou_best_src_value: u8,
}

/// How the book took part in a thought.
#[derive(Clone, Copy, Debug, PartialEq, Eq, Structural)]
pub struct BookTrace {
    /// How often the book was asked.
    pub asked: u8,
    /// The move that the book gave and the engine accepted, if any.
    pub accepted: Option<Move>,
}

/// The progress ply after one more move: one more, but at most 100.
pub open spec fn next_ply(ply: u8) -> u8 {
    if ply >= 100 {
        100
    } else {
        (ply + 1) as u8
    }
}

/// The phase after a move of HUM that brings the progress ply to `ply`:
/// from ply 51 on it rises by one, up to 2; from ply 71 on it is 3.
pub open spec fn level_after_hum(level: u8, ply: u8) -> u8 {
    let l = if ply >= 51 {
        if level + 1 < 2 {
            (level + 1) as u8
        } else {
            2
        }
    } else {
        level
    };
    if ply >= 71 {
        3
    } else {
        l
    }
}

/// The position after taking `umv` back.
pub open spec fn before(pos: Position, umv: UndoableMove) -> Position {
    choose|p: Position| pos.unmoved(umv, p)
}

/// The position that taking a move back leads to is the position before
/// the move.
pub proof fn lemma_before(p1: Position, umv: UndoableMove, p0: Position)
    requires
        p1.unmoved(umv, p0),
    ensures
        p0 == before(p1, umv),
{
    let a = before(p1, umv);
    assert(p1.unmoved(umv, a));
    let us = p1.side_to_move.opp();
    assert(a.hands.of(us)@ == p0.hands.of(us)@);
    assert(a.hands.of(us.opp())@ == p0.hands.of(us.opp())@);
    lemma_position_determined(a, p0);
}

/// The move that stands for "the book has answered".
pub open spec fn book_answer(mv: Move) -> EngineResponseRaw {
    EngineResponseRaw::Move(
        EngineResponseRawMove {
            best_mv: mv,
            quiet: false,
            force_skip_book: false,
            hum_is_checkmated: false,
        },
    )
}

impl Engine {
    /// The engine is consistent: so are its position and its book state,
    /// the progress stays within its bounds, phase 2 is not reached before
    /// progress ply 51 nor phase 3 before progress ply 71, and while the
    /// phase is 0 the book has not been left.
    pub open spec fn wf(&self) -> bool {
        &&& self.pos.wf()
        &&& self.book_state.wf()
        &&& self.progress_ply <= 100
        &&& self.progress_level <= 3
        &&& (self.progress_level >= 2 ==> self.progress_ply >= 51)
        &&& (self.progress_level == 3 ==> self.progress_ply >= 71)
        &&& (self.progress_level == 0 ==> self.progress_level_sub < 5 && self.book_state.formation
            != Formation::Nothing)
    }

    /// Whether the last move of HUM makes the engine ask the book before
    /// anything else: up to progress ply 6, in phase 0, a move to one of
    /// the squares 2b, 4e and 5f.
    pub open spec fn book_forced(&self, mv_hum: Option<Move>) -> bool {
        mv_hum.is_some() && self.progress_ply <= 6 && self.progress_level == 0 && ({
            let d = mv_hum.unwrap().spec_dst();
            d == Square(10) || d == Square(31) || d == Square(41)
        })
    }

    /// The engine after the search, with the origin value that the search
    /// carries over.
    pub open spec fn searched(self) -> (EngineResponseRaw, Engine) {
        let root = root_of(self.pos, self.progress_ply, self.progress_level);
        let found = search_of(self.pos, self.progress_level, root, self.naitou_best_src_value);
        (found.0, Engine { naitou_best_src_value: found.1, ..self })
    }

    /// The engine after it has asked the book, and the move that the book
    /// gave and the engine accepted.  When there is none, the phase becomes
    /// 1: the book is left for good.
    pub open spec fn booked(self, mv_hum: Option<Move>) -> (Option<Move>, Engine) {
        let pick = book_pick(self.pos, self.progress_ply, self.book_state, mv_hum, 128);
        match pick.1 {
            Some(mv) => (Some(mv), Engine { book_state: pick.0, ..self }),
            None => (None, Engine { book_state: pick.0, progress_level: 1, ..self }),
        }
    }

    /// The answer of the engine in its position, with COM to move, after
    /// the move `mv_hum` of HUM (none at the start of a game that COM
    /// opens), and the engine after it has thought.
    ///
    /// The engine searches first.  Then, if the move of HUM forces it, the
    /// book is asked, and a book move is the answer.  Otherwise, when the
    /// search has found a move: in phase 0 a move that is not quiet counts
    /// towards the end of the phase; and in phase 0 a quiet move, unless
    /// the search forbids it, lets the book be asked, whose move is then the
    /// answer.
    pub open spec fn thought(self, mv_hum: Option<Move>) -> (EngineResponseRaw, Engine) {
        let s = self.searched();
        let forced = if s.1.book_forced(mv_hum) {
            s.1.booked(mv_hum)
        } else {
            (None, s.1)
        };
        match forced.0 {
            Some(mv) => (book_answer(mv), forced.1),
            None => match s.0 {
                EngineResponseRaw::Move(m) => {
                    let e = forced.1;
                    let counted = if e.progress_level == 0 && !m.quiet {
                        Engine {
                            progress_level_sub: (e.progress_level_sub + 1) as u8,
                            progress_level: if e.progress_level_sub + 1 >= 5 {
                                1
                            } else {
                                e.progress_level
                            },
                            ..e
                        }
                    } else {
                        e
                    };
                    if counted.progress_level == 0 && m.quiet && !m.force_skip_book {
                        let b = counted.booked(mv_hum);
                        match b.0 {
                            Some(mv) => (book_answer(mv), b.1),
                            None => (s.0, b.1),
                        }
                    } else {
                        (s.0, counted)
                    }
                },
                other => (other, forced.1),
            },
        }
    }

    /// How the book takes part in the thought after the move `mv_hum` of
    /// HUM: how often it is asked, and the move that it gives and the
    /// engine accepts.
    pub open spec fn book_trace(self, mv_hum: Option<Move>) -> BookTrace {
        let s = self.searched();
        let first = s.1.book_forced(mv_hum);
        let forced = if first {
            s.1.booked(mv_hum)
        } else {
            (None, s.1)
        };
        let asked: u8 = if first {
            1
        } else {
            0
        };
        match forced.0 {
            Some(mv) => BookTrace { asked, accepted: Some(mv) },
            None => match s.0 {
                EngineResponseRaw::Move(m) => {
                    let e = forced.1;
                    let level = if e.progress_level == 0 && !m.quiet && e.progress_level_sub + 1 >= 5 {
                        1
                    } else {
                        e.progress_level
                    };
                    let counted = if e.progress_level == 0 && !m.quiet {
                        Engine {
                            progress_level_sub: (e.progress_level_sub + 1) as u8,
                            progress_level: level,
                            ..e
                        }
                    } else {
                        e
                    };
                    if level == 0 && m.quiet && !m.force_skip_book {
                        BookTrace { asked: (asked + 1) as u8, accepted: counted.booked(mv_hum).0 }
                    } else {
                        BookTrace { asked, accepted: None }
                    }
                },
                _ => BookTrace { asked, accepted: None },
            },
        }
    }

    /// The engine after the move `mv` of HUM, before it thinks: the move is
    /// played and the progress advances.
    pub open spec fn hum_moved(self, mv: Move) -> Engine {
        let ply = next_ply(self.progress_ply);
        Engine {
            pos: after(self.pos, mv),
            progress_ply: ply,
            progress_level: level_after_hum(self.progress_level, ply),
            ..self
        }
    }

    /// What is kept to take back a step that starts with the move `mv` of
    /// HUM.
    pub open spec fn undo_info_for(self, mv: Move) -> EngineUndoInfo {
        EngineUndoInfo {
            umv_hum: Position::undo_record(self.pos.board@, mv),
            progress_ply: self.progress_ply,
            progress_level: self.progress_level,
            progress_level_sub: self.progress_level_sub,
            book_state: self.book_state,
            naitou_best_src_value: self.naitou_best_src_value,
        }
    }

    /// Whether the move `mv` of HUM leaves HUM's own king attacked.
    pub open spec fn is_suicide(self, mv: Move) -> bool {
        let p = after(self.pos, mv);
        attack_count(p.board@, Side::Com, p.king(Side::Hum).0 as int) > 0
    }

    /// The answer of the engine to the move `mv` of HUM, and the engine
    /// after the step.  The move must not leave HUM's king attacked.
    ///
    /// The move is played, the engine thinks, and a move that it answers
    /// with is played too.  An answer that mates HUM is a win of COM.
    pub open spec fn stepped(self, mv: Move) -> (EngineResponse, Engine) {
        let info = self.undo_info_for(mv);
        let t = self.hum_moved(mv).thought(Some(mv));
        let e = t.1;
        match t.0 {
            EngineResponseRaw::Move(m) => {
                let umv_com = Position::undo_record(e.pos.board@, m.best_mv);
                let moved = Engine {
                    pos: after(e.pos, m.best_mv),
                    progress_ply: next_ply(e.progress_ply),
                    ..e
                };
                if m.hum_is_checkmated {
                    (EngineResponse::ComWin(EngineResponseComWin { umv_com, undo_info: info }), moved)
                } else {
                    (EngineResponse::Move(EngineResponseMove { umv_com, undo_info: info }), moved)
                }
            },
            EngineResponseRaw::HumWin => (
                EngineResponse::HumWin(EngineResponseHumWin { undo_info: info }),
                e,
            ),
            EngineResponseRaw::HumSuicide => (
                EngineResponse::HumSuicide(EngineResponseHumSuicide { undo_info: info }),
                e,
            ),
        }
    }

    /// Whether the step that `resp` records can be taken back: the moves
    /// that it holds can be taken back one after the other.
    pub open spec fn can_undo(self, resp: EngineResponse) -> bool {
        &&& self.pos.wf()
        &&& match resp.spec_move_com() {
            Some(umv_com) => self.pos.undoable(umv_com) && before(self.pos, umv_com).undoable(
                resp.spec_undo_info().umv_hum,
            ),
            None => self.pos.undoable(resp.spec_undo_info().umv_hum),
        }
    }

    /// The engine after the step that `resp` records has been taken back.
    pub open spec fn undone(self, resp: EngineResponse) -> Engine {
        let info = resp.spec_undo_info();
        let p = match resp.spec_move_com() {
            Some(umv_com) => before(self.pos, umv_com),
            None => self.pos,
        };
        Engine {
            pos: before(p, info.umv_hum),
            progress_ply: info.progress_ply,
            progress_level: info.progress_level,
            progress_level_sub: info.progress_level_sub,
            book_state: info.book_state,
            naitou_best_src_value: info.naitou_best_src_value,
        }
    }

    /// Whether this is the engine at the start of a game with handicap
    /// `h`, before any move: the starting position, no progress, the book
    /// at the start of the formation of the handicap.
    pub open spec fn is_start(self, h: Handicap) -> bool {
        &&& self.pos.wf()
        &&& self.pos.board@ == h.start_board()
        &&& (forall|s: Side, i: int| 0 <= i < 8 ==> self.pos.hands.of(s)@[i] == 0)
        &&& self.pos.side_to_move == h.first_mover()
        &&& self.pos.ply == 1
        &&& self.progress_ply == 0
        &&& self.progress_level == 0
        &&& self.progress_level_sub == 0
        &&& self.book_state == BookState::fresh(
            match h {
                Handicap::HumSenteSikenbisha | Handicap::ComSenteSikenbisha => Formation::Sikenbisha,
                Handicap::HumSenteNakabisha | Handicap::ComSenteNakabisha => Formation::Nakabisha,
                Handicap::HumHishaochi => Formation::HumHishaochi,
                Handicap::HumNimaiochi => Formation::HumNimaiochi,
                Handicap::ComHishaochi => Formation::ComHishaochi,
                Handicap::ComNimaiochi => Formation::ComNimaiochi,
            },
        )
        &&& self.naitou_best_src_value == 0
    }

    /// The engine as a game begins, and the first move of COM when COM
    /// moves first.  When HUM moves first there is no such move; neither is
    /// there when COM, moving first, finds no move to play.
    pub open spec fn opening(self) -> (Engine, Option<UndoableMove>) {
        match self.pos.side_to_move {
            Side::Hum => (self, None),
            Side::Com => {
                let t = self.thought(None);
                match t.0 {
                    EngineResponseRaw::Move(m) => (
                        Engine {
                            pos: after(t.1.pos, m.best_mv),
                            progress_ply: next_ply(t.1.progress_ply),
                            ..t.1
                        },
                        Some(Position::undo_record(t.1.pos.board@, m.best_mv)),
                    ),
                    _ => (t.1, None),
                }
            },
        }
    }

    /// The engine for a game with the given handicap.  When COM moves
    /// first, its first move is played and returned.
    pub fn new(handicap: Handicap) -> (r: (Engine, Option<UndoableMove>))
        ensures
            r.0.wf(),
            exists|e0: Engine| e0.is_start(handicap) && r == #[trigger] e0.opening(),
    {
        let (side_to_move, board, hands) = handicap.startpos();
        let pos: Position = Position::new(side_to_move, board, hands);
        let formation: Formation = Formation::from_handicap(handicap);
        let book_state: BookState = BookState::new(formation);
        let mut engine: Engine = Engine {
            pos,
            progress_ply: 0,
            progress_level: 0,
            progress_level_sub: 0,
            book_state,
            naitou_best_src_value: 0,
        };
        let ghost e0 = engine;
        assert(e0.is_start(handicap));
        let umv_com: Option<UndoableMove> = match engine.pos.side_to_move() {
            Side::Hum => None,
            Side::Com => {
                match engine.think(None) {
                    EngineResponseRaw::Move(m) => Some(engine.do_move_com(m.best_mv)),
                    _ => None,
                }
            },
        };
        assert((engine, umv_com) == e0.opening());
        (engine, umv_com)
    }

    /// The position.
    pub fn position(&self) -> (r: &Position)
        ensures
            *r == self.pos,
    {
        &self.pos
    }

    /// The number of moves played, at most 100.
    pub fn progress_ply(&self) -> (r: u8)
        ensures
            r == self.progress_ply,
    {
        self.progress_ply
    }

    /// The phase of the game.
    pub fn progress_level(&self) -> (r: u8)
        ensures
            r == self.progress_level,
    {
        self.progress_level
    }

    /// The count towards the end of phase 0.
    pub fn progress_level_sub(&self) -> (r: u8)
        ensures
            r == self.progress_level_sub,
    {
        self.progress_level_sub
    }

    /// The state of the book.
    pub fn book_state(&self) -> (r: &BookState)
        ensures
            *r == self.book_state,
    {
        &self.book_state
    }

    /// The evaluation of the position before any candidate is tried.
    pub fn evaluate_root(&self) -> (r: RootEvaluation)
        requires
            self.wf(),
        ensures
            r == root_of(self.pos, self.progress_ply, self.progress_level),
            r.king_sq@[0].on_board(),
            r.king_sq@[1].on_board(),
    {
        root_evaluation(&self.pos, self.progress_ply, self.progress_level)
    }

    /// The evaluation of the position of the engine, reached by the
    /// candidate `umv`, or nothing when the candidate is rejected.
    pub fn evaluate_leaf(&mut self, root_eval: &RootEvaluation, umv: UndoableMove) -> (r: Option<
        LeafEvaluation,
    >)
        requires
            old(self).pos.wf(),
            readable(umv),
            root_eval.king_sq@[0].on_board(),
            root_eval.king_sq@[1].on_board(),
        ensures
            *final(self) == *old(self),
            r == leaf_of(old(self).pos, old(self).progress_level, *root_eval, umv),
    {
        let level: u8 = self.progress_level;
        leaf_evaluation(&mut self.pos, level, root_eval, umv)
    }

    /// Applies all revisions to the evaluation of a candidate.
    pub fn revise_leaf_evaluation(
        &self,
        root_eval: &RootEvaluation,
        umv: UndoableMove,
        leaf_eval: &mut LeafEvaluation,
    )
        requires
            readable(umv),
            squares_ok(*root_eval, *old(leaf_eval)),
        ensures
            *final(leaf_eval) == revised(*root_eval, umv, *old(leaf_eval)),
    {
        revise(root_eval, umv, leaf_eval);
    }

    /// Whether the candidate is better than the best so far.
    pub fn can_improve_best(
        &self,
        root_eval: &RootEvaluation,
        best_eval: &LeafEvaluation,
        leaf_eval: &LeafEvaluation,
        umv: UndoableMove,
    ) -> (r: bool)
        requires
            umv.spec_is_drop() ==> 1 <= umv.from_field() <= 7,
        ensures
            r == improves(*root_eval, *best_eval, *leaf_eval, umv, self.naitou_best_src_value),
    {
        improves_best(root_eval, best_eval, leaf_eval, umv, self.naitou_best_src_value)
    }

    /// The advantage squares of the position in the order of the scan.
    pub fn iter_advantage_squares(&self) -> (r: Vec<(Square, PieceKind)>)
        requires
            self.pos.wf(),
        ensures
            r@ == adv_upto(self.pos, self.progress_level, 81),
    {
        advantage_squares(&self.pos, self.progress_level)
    }

    /// The disadvantage squares of the position in the order of the scan.
    pub fn iter_disadvantage_squares(&self) -> (r: Vec<(Square, PieceKind, bool)>)
        requires
            self.pos.wf(),
        ensures
            r@ == disadv_upto(self.pos, 81),
    {
        disadvantage_squares(&self.pos)
    }

    /// Searches without the book.
    pub fn think_search(&mut self, root_eval: &RootEvaluation) -> (r: EngineResponseRaw)
        requires
            old(self).wf(),
            old(self).pos.side_to_move == Side::Com,
            root_eval.king_sq@[0].on_board(),
            root_eval.king_sq@[1].on_board(),
        ensures
            (r, final(self).naitou_best_src_value) == search_of(
                old(self).pos,
                old(self).progress_level,
                *root_eval,
                old(self).naitou_best_src_value,
            ),
            *final(self) == (Engine {
                naitou_best_src_value: final(self).naitou_best_src_value,
                ..*old(self)
            }),
            match r {
                EngineResponseRaw::Move(m) => old(self).pos.playable(m.best_mv),
                _ => true,
            },
    {
        let level: u8 = self.progress_level;
        let (answer, src_value) = search(&mut self.pos, level, root_eval, self.naitou_best_src_value);
        self.naitou_best_src_value = src_value;
        answer
    }

    /// Whether the book move `mv` obeys how the pieces move.
    pub fn book_move_is_legal(&self, mv: Move) -> (r: bool)
        requires
            self.pos.wf(),
            mv.spec_is_valid(),
            !mv.spec_is_drop(),
        ensures
            r == book_legal(self.pos, mv),
    {
        book_move_legal(&self.pos, mv)
    }

    /// The disadvantage price of the position after the book move `mv`.
    pub fn evaluate_book_move(&mut self, mv: Move) -> (r: u8)
        requires
            old(self).pos.wf(),
            old(self).pos.playable(mv),
        ensures
            *final(self) == *old(self),
            r == book_disadv(old(self).pos, mv),
    {
        book_move_disadv(&mut self.pos, mv)
    }

    /// Asks the book; gives the book move that the engine plays, if there
    /// is one.
    pub fn think_book(&mut self, mv_hum: Option<Move>) -> (r: Option<Move>)
        requires
            old(self).pos.wf(),
            old(self).book_state.wf(),
        ensures
            (final(self).book_state, r) == book_pick(
                old(self).pos,
                old(self).progress_ply,
                old(self).book_state,
                mv_hum,
                128,
            ),
            *final(self) == (Engine { book_state: final(self).book_state, ..*old(self) }),
            final(self).book_state.wf(),
            r.is_some() ==> old(self).pos.playable(r.unwrap()) && final(self).book_state.formation
                != Formation::Nothing,
    {
        let ply: u8 = self.progress_ply;
        pick_book_move(&mut self.pos, ply, &mut self.book_state, mv_hum)
    }

    /// Asks the book, and leaves it for good when it gives no move that the
    /// engine plays.
    pub fn ask_book(&mut self, mv_hum: Option<Move>) -> (r: Option<Move>)
        requires
            old(self).wf(),
        ensures
            (r, *final(self)) == old(self).booked(mv_hum),
            final(self).wf(),
            final(self).pos == old(self).pos,
            r.is_some() ==> old(self).pos.playable(r.unwrap()),
    {
        match self.think_book(mv_hum) {
            Some(mv) => Some(mv),
            None => {
                self.progress_level = 1;
                None
            },
        }
    }

    /// Thinks in the position of the engine, with COM to move, after the
    /// move `mv_hum` of HUM.  The position is left as it was.
    pub fn think(&mut self, mv_hum: Option<Move>) -> (r: EngineResponseRaw)
        requires
            old(self).wf(),
            old(self).pos.side_to_move == Side::Com,
        ensures
            (r, *final(self)) == old(self).thought(mv_hum),
            final(self).wf(),
            final(self).pos == old(self).pos,
            final(self).progress_ply == old(self).progress_ply,
            match r {
                EngineResponseRaw::Move(m) => old(self).pos.playable(m.best_mv),
                _ => true,
            },
    {
        self.think_traced(mv_hum).0
    }

    /// Thinks as `think` does, and says how the book took part.
    pub fn think_traced(&mut self, mv_hum: Option<Move>) -> (r: (EngineResponseRaw, BookTrace))
        requires
            old(self).wf(),
            old(self).pos.side_to_move == Side::Com,
        ensures
            (r.0, *final(self)) == old(self).thought(mv_hum),
            r.1 == old(self).book_trace(mv_hum),
            final(self).wf(),
            final(self).pos == old(self).pos,
            final(self).progress_ply == old(self).progress_ply,
            match r.0 {
                EngineResponseRaw::Move(m) => old(self).pos.playable(m.best_mv),
                _ => true,
            },
    {
        let root_eval: RootEvaluation = self.evaluate_root();
        let resp_raw: EngineResponseRaw = self.think_search(&root_eval);
        let forced: bool = match mv_hum {
            Some(m) => {
                let d: i32 = m.dst().0;
                self.progress_ply <= 6 && (d == 10 || d == 31 || d == 41) && self.progress_level == 0
            },
            None => false,
        };
        let mut asked: u8 = 0;
        if forced {
            asked = 1;
            match self.ask_book(mv_hum) {
                Some(book_mv) => {
                    return (
                        EngineResponseRaw::Move(
                            EngineResponseRawMove {
                                best_mv: book_mv,
                                quiet: false,
                                force_skip_book: false,
                                hum_is_checkmated: false,
                            },
                        ),
                        BookTrace { asked, accepted: Some(book_mv) },
                    );
                },
                None => {},
            }
        }
        match resp_raw {
            EngineResponseRaw::Move(m) => {
                if self.progress_level == 0 && !m.quiet {
                    self.progress_level_sub = self.progress_level_sub + 1;
                    if self.progress_level_sub >= 5 {
                        self.progress_level = 1;
                    }
                }
                if self.progress_level == 0 && m.quiet && !m.force_skip_book {
                    asked = asked + 1;
                    match self.ask_book(mv_hum) {
                        Some(book_mv) => {
                            return (
                                EngineResponseRaw::Move(
                                    EngineResponseRawMove {
                                        best_mv: book_mv,
                                        quiet: false,
                                        force_skip_book: false,
                                        hum_is_checkmated: false,
                                    },
                                ),
                                BookTrace { asked, accepted: Some(book_mv) },
                            );
                        },
                        None => {},
                    }
                }
            },
            _ => {},
        }
        (resp_raw, BookTrace { asked, accepted: None })
    }

    /// Counts one more move, up to 100.
    pub fn increment_progress_ply(&mut self)
        ensures
            *final(self) == (Engine { progress_ply: next_ply(old(self).progress_ply), ..*old(self) }),
    {
        if self.progress_ply < 100 {
            self.progress_ply = self.progress_ply + 1;
        } else {
            self.progress_ply = 100;
        }
    }

    /// Plays the move `mv` of HUM and advances the progress; gives what is
    /// needed to take the move back.  A move that leaves HUM's king
    /// attacked is not played.
    pub fn do_move_hum(&mut self, mv: Move) -> (r: Result<EngineUndoInfo, SuicideMove>)
        requires
            old(self).wf(),
            old(self).pos.playable(mv),
        ensures
            match r {
                Ok(info) => !old(self).is_suicide(mv) && info == old(self).undo_info_for(mv)
                    && *final(self) == old(self).hum_moved(mv) && final(self).pos.undoable(
                    info.umv_hum,
                ) && old(self).pos.moved(mv, final(self).pos, info.umv_hum),
                Err(_) => old(self).is_suicide(mv) && *final(self) == *old(self),
            },
            final(self).wf(),
    {
        let ghost p0 = self.pos;
        let umv_hum: UndoableMove = self.pos.do_move(mv);
        let ghost p1 = self.pos;
        proof {
            lemma_after(p0, mv, p1, umv_hum);
        }
        if self.pos.is_checked(Side::Hum) {
            self.pos.undo_move(umv_hum);
            proof {
                lemma_undo_restores(p0, mv, p1, umv_hum, self.pos);
            }
            return Err(SuicideMove);
        }
        let info: EngineUndoInfo = EngineUndoInfo {
            umv_hum,
            progress_ply: self.progress_ply,
            progress_level: self.progress_level,
            progress_level_sub: self.progress_level_sub,
            book_state: self.book_state,
            naitou_best_src_value: self.naitou_best_src_value,
        };
        self.increment_progress_ply();
        if self.progress_ply >= 51 {
            self.progress_level = if self.progress_level + 1 < 2 { self.progress_level + 1 } else { 2 };
        }
        if self.progress_ply >= 71 {
            self.progress_level = 3;
        }
        Ok(info)
    }

    /// Plays the move `mv` of COM and counts it.
    pub fn do_move_com(&mut self, mv: Move) -> (umv: UndoableMove)
        requires
            old(self).wf(),
            old(self).pos.playable(mv),
        ensures
            umv == Position::undo_record(old(self).pos.board@, mv),
            *final(self) == (Engine {
                pos: after(old(self).pos, mv),
                progress_ply: next_ply(old(self).progress_ply),
                ..*old(self)
            }),
            final(self).wf(),
            final(self).pos.undoable(umv),
            old(self).pos.moved(mv, final(self).pos, umv),
    {
        let ghost p0 = self.pos;
        let umv_com: UndoableMove = self.pos.do_move(mv);
        proof {
            lemma_after(p0, mv, self.pos, umv_com);
        }
        self.increment_progress_ply();
        umv_com
    }

    /// Plays the move `mv_hum` of HUM, which must be playable, and answers
    /// it.  A move that leaves HUM's own king attacked is an error, and the
    /// engine stays as it was.
    pub fn do_step(&mut self, mv_hum: Move) -> (r: Result<EngineResponse, SuicideMove>)
        requires
            old(self).wf(),
            old(self).pos.side_to_move == Side::Hum,
            old(self).pos.playable(mv_hum),
        ensures
            r.is_err() == old(self).is_suicide(mv_hum),
            r.is_err() ==> *final(self) == *old(self),
            r.is_ok() ==> (r.unwrap(), *final(self)) == old(self).stepped(mv_hum),
            r.is_ok() ==> final(self).can_undo(r.unwrap()) && final(self).undone(r.unwrap()) == *old(
                self,
            ),
            final(self).wf(),
    {
        let ghost e0 = *self;
        let undo_info: EngineUndoInfo = match self.do_move_hum(mv_hum) {
            Ok(info) => info,
            Err(e) => {
                return Err(e);
            },
        };
        let ghost e1 = *self;
        let resp_raw: EngineResponseRaw = self.think(Some(mv_hum));
        let ghost e2 = *self;
        let resp: EngineResponse = match resp_raw {
            EngineResponseRaw::Move(m) => {
                let umv_com: UndoableMove = self.do_move_com(m.best_mv);
                proof {
                    lemma_step_back(e0, mv_hum, undo_info.umv_hum, e1.pos, m.best_mv, umv_com, self.pos);
                }
                if m.hum_is_checkmated {
                    EngineResponse::new_com_win(umv_com, undo_info)
                } else {
                    EngineResponse::new_move(umv_com, undo_info)
                }
            },
            EngineResponseRaw::HumWin => {
                proof {
                    lemma_half_step_back(e0, mv_hum, undo_info.umv_hum, e1.pos);
                }
                EngineResponse::new_hum_win(undo_info)
            },
            EngineResponseRaw::HumSuicide => {
                proof {
                    lemma_half_step_back(e0, mv_hum, undo_info.umv_hum, e1.pos);
                }
                EngineResponse::new_hum_suicide(undo_info)
            },
        };
        Ok(resp)
    }

    /// Takes back the step that `resp` records.
    pub fn undo_step(&mut self, resp: &EngineResponse)
        requires
            old(self).can_undo(*resp),
        ensures
            *final(self) == old(self).undone(*resp),
    {
        match resp.move_com() {
            Some(umv_com) => {
                let ghost p = self.pos;
                self.pos.undo_move(umv_com);
                proof {
                    lemma_before(p, umv_com, self.pos);
                }
            },
            None => {},
        }
        let info: EngineUndoInfo = resp.undo_info();
        let ghost p = self.pos;
        self.pos.undo_move(info.umv_hum);
        proof {
            lemma_before(p, info.umv_hum, self.pos);
        }
        self.progress_ply = info.progress_ply;
        self.progress_level = info.progress_level;
        self.progress_level_sub = info.progress_level_sub;
        self.book_state = info.book_state;
        self.naitou_best_src_value = info.naitou_best_src_value;
    }
}

/// Taking back the two moves of a step gives the position of before.
pub proof fn lemma_step_back(
    e0: Engine,
    mv_hum: Move,
    umv_hum: UndoableMove,
    p1: Position,
    mv_com: Move,
    umv_com: UndoableMove,
    p2: Position,
)
    requires
        e0.pos.wf(),
        e0.pos.playable(mv_hum),
        e0.pos.moved(mv_hum, p1, umv_hum),
        p1.undoable(umv_hum),
        p1.playable(mv_com),
        p1.moved(mv_com, p2, umv_com),
        p2.undoable(umv_com),
    ensures
        before(p2, umv_com) == p1,
        before(p1, umv_hum) == e0.pos,
{
    lemma_unmove(p1, mv_com, umv_com, p2);
    lemma_unmove(e0.pos, mv_hum, umv_hum, p1);
}

/// Taking back the move of HUM gives the position of before.
pub proof fn lemma_half_step_back(e0: Engine, mv_hum: Move, umv_hum: UndoableMove, p1: Position)
    requires
        e0.pos.wf(),
        e0.pos.playable(mv_hum),
        e0.pos.moved(mv_hum, p1, umv_hum),
        p1.undoable(umv_hum),
    ensures
        before(p1, umv_hum) == e0.pos,
{
    lemma_unmove(e0.pos, mv_hum, umv_hum, p1);
}

/// The position before a move that has just been played is the position in
/// which it was played.
pub proof fn lemma_unmove(p0: Position, mv: Move, umv: UndoableMove, p1: Position)
    requires
        p0.wf(),
        p0.playable(mv),
        p0.moved(mv, p1, umv),
        p1.undoable(umv),
    ensures
        before(p1, umv) == p0,
        p1.unmoved(umv, p0),
{
    crate::position::lemma_move_can_be_undone(p0, mv, p1, umv);
    lemma_before(p1, umv, p0);
}

/// The phase never falls: a move of HUM leaves the phase of a consistent
/// engine as it is or raises it.
pub proof fn lemma_level_never_falls(e: Engine)
    requires
        e.wf(),
    ensures
        level_after_hum(e.progress_level, next_ply(e.progress_ply)) >= e.progress_level,
{
}

} // verus!
