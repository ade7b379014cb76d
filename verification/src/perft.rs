//! Counting the positions that can be reached in a given number of moves.
//!
//! `tally` says what is counted: the positions at the end of every line of
//! play of the given length, where each move is one of those that are
//! tried in its position (answers to a check when the king is attacked,
//! else the pseudo-legal moves) and can be played.  The moves come from the
//! bounded move list; a list that comes back full is filled again without
//! a bound, so that none is left out.

use vstd::prelude::*;
use crate::piece::PieceKind;
use crate::moves::{Move, UndoableMove};
use crate::position::{Position, lemma_undo_restores};
use crate::engine::search::{after, lemma_after};
use crate::movegen::general::{all_moves, evasion, evasion_moves, pseudo_legal};

verus! {

/// A position at the end of a line of play.
#[derive(Debug)]
pub struct PerftLeafNode<'a> {
    pub pos: &'a Position,
    /// The move that led to the position, if any.
    pub umv: Option<UndoableMove>,
    /// Whether the king of the side to move is attacked.
    pub checked: bool,
    /// Whether the side to move is checkmated.
    pub checkmated: bool,
}

impl<'a> PerftLeafNode<'a> {
    pub fn new(pos: &'a Position, umv: Option<UndoableMove>, checked: bool, checkmated: bool) -> (r:
        PerftLeafNode<'a>)
        ensures
            r.pos == pos,
            r.umv == umv,
            r.checked == checked,
            r.checkmated == checkmated,
    {
        PerftLeafNode { pos, umv, checked, checkmated }
    }

    /// The position.
    pub fn position(&self) -> (r: &Position)
        ensures
            r == self.pos,
    {
        self.pos
    }

    /// The move that led to the position, if any.
    pub fn previous_move(&self) -> (r: Option<UndoableMove>)
        ensures
            r == self.umv,
    {
        self.umv
    }

    /// Whether the king of the side to move is attacked.
    pub fn is_checked(&self) -> (r: bool)
        ensures
            r == self.checked,
    {
        self.checked
    }

    /// Whether the side to move is checkmated.
    pub fn is_checkmated(&self) -> (r: bool)
        ensures
            r == self.checkmated,
    {
        self.checkmated
    }
}

/// What is counted at the ends of the lines of play.
#[derive(Clone, Copy, Debug, PartialEq, Eq, Structural)]
pub struct PerftStats {
    /// The positions.
    pub count_all: u64,
    /// Those reached by a capture.
    pub count_capture: u64,
    /// Those reached by a promotion.
    pub count_promote: u64,
    /// Those in which the side to move is in check.
    pub count_check: u64,
    /// Those in which the side to move is checkmated.
    pub count_checkmate: u64,
}

/// One more, as long as the counter can hold it.
pub open spec fn bumped(n: u64, by: bool) -> u64 {
    if by && n < u64::MAX {
        (n + 1) as u64
    } else {
        n
    }
}

/// The counts with one more position like `leaf`.
pub open spec fn counted(stats: PerftStats, umv: Option<UndoableMove>, checked: bool, checkmated: bool) -> PerftStats {
    let walked = umv.is_some() && !umv.unwrap().spec_is_drop();
    PerftStats {
        count_all: bumped(stats.count_all, true),
        count_capture: bumped(
            stats.count_capture,
            walked && umv.unwrap().captured_field() != 0,
        ),
        count_promote: bumped(stats.count_promote, walked && umv.unwrap().spec_is_promotion()),
        count_check: bumped(stats.count_check, checked),
        count_checkmate: bumped(stats.count_checkmate, checkmated),
    }
}

impl PerftStats {
    /// No position counted.
    pub fn new() -> (r: PerftStats)
        ensures
            r == (PerftStats {
                count_all: 0,
                count_capture: 0,
                count_promote: 0,
                count_check: 0,
                count_checkmate: 0,
            }),
    {
        PerftStats {
            count_all: 0,
            count_capture: 0,
            count_promote: 0,
            count_check: 0,
            count_checkmate: 0,
        }
    }

    /// Counts one more position.
    pub fn record(&mut self, leaf: &PerftLeafNode)
        ensures
            *final(self) == counted(*old(self), leaf.umv, leaf.checked, leaf.checkmated),
    {
        if self.count_all < u64::MAX {
            self.count_all = self.count_all + 1;
        }
        match leaf.previous_move() {
            Some(umv) => {
                if !umv.is_drop() {
                    if (umv.0 / 2097152) % 32 != 0 && self.count_capture < u64::MAX {
                        self.count_capture = self.count_capture + 1;
                    }
                    if umv.is_promotion() && self.count_promote < u64::MAX {
                        self.count_promote = self.count_promote + 1;
                    }
                }
            },
            None => {},
        }
        if leaf.is_checked() && self.count_check < u64::MAX {
            self.count_check = self.count_check + 1;
        }
        if leaf.is_checkmated() && self.count_checkmate < u64::MAX {
            self.count_checkmate = self.count_checkmate + 1;
        }
    }
}

/// Whether the position counts at the end of a line of play: the side that
/// has just moved has not left its king attacked, and the position is not a
/// mate that `umv` gave by dropping a pawn.
pub open spec fn leaf_counts(pos: Position, umv: Option<UndoableMove>) -> bool {
    let us = pos.side_to_move;
    let checked = crate::attack::attack_count(pos.board@, us.opp(), pos.king(us).0 as int) > 0;
    &&& crate::attack::attack_count(pos.board@, us, pos.king(us.opp()).0 as int) == 0
    &&& !(checked && !crate::movegen::general::can_evade(pos, false) && umv.is_some()
        && umv.unwrap().spec_is_drop() && umv.unwrap().dropped() == PieceKind::Pawn)
}

/// How many positions were counted, and how many of each sort, without
/// the bounds of the counters.
pub struct Tally {
    pub all: nat,
    pub capture: nat,
    pub promote: nat,
    pub check: nat,
    pub checkmate: nat,
}

impl Tally {
    /// No position.
    pub open spec fn zero() -> Tally {
        Tally { all: 0, capture: 0, promote: 0, check: 0, checkmate: 0 }
    }

    /// The two tallies together.
    pub open spec fn plus(self, other: Tally) -> Tally {
        Tally {
            all: self.all + other.all,
            capture: self.capture + other.capture,
            promote: self.promote + other.promote,
            check: self.check + other.check,
            checkmate: self.checkmate + other.checkmate,
        }
    }
}

/// `n` and `k` more, as far as the counter can hold it.
pub open spec fn add_sat(n: u64, k: nat) -> u64 {
    if n + k <= u64::MAX {
        (n + k) as u64
    } else {
        u64::MAX
    }
}

/// The counts with a tally added, each as far as its counter can hold it.
pub open spec fn with_tally(stats: PerftStats, t: Tally) -> PerftStats {
    PerftStats {
        count_all: add_sat(stats.count_all, t.all),
        count_capture: add_sat(stats.count_capture, t.capture),
        count_promote: add_sat(stats.count_promote, t.promote),
        count_check: add_sat(stats.count_check, t.check),
        count_checkmate: add_sat(stats.count_checkmate, t.checkmate),
    }
}

/// Whether the king of the side to move is attacked.
pub open spec fn in_check(pos: Position) -> bool {
    crate::attack::attack_count(
        pos.board@,
        pos.side_to_move.opp(),
        pos.king(pos.side_to_move).0 as int,
    ) > 0
}

/// Whether the side that has just moved has left its king attacked.
pub open spec fn left_in_check(pos: Position) -> bool {
    crate::attack::attack_count(
        pos.board@,
        pos.side_to_move,
        pos.king(pos.side_to_move.opp()).0 as int,
    ) > 0
}

/// The tally of one position at the end of a line of play that `umv` has
/// led to: nothing when it does not count, else one position, and one more
/// of each sort that it belongs to.
pub open spec fn leaf_tally(pos: Position, umv: Option<UndoableMove>) -> Tally {
    if leaf_counts(pos, umv) {
        let walked = umv.is_some() && !umv.unwrap().spec_is_drop();
        let mated = in_check(pos) && !crate::movegen::general::can_evade(pos, false);
        Tally {
            all: 1,
            capture: if walked && umv.unwrap().captured_field() != 0 {
                1
            } else {
                0
            },
            promote: if walked && umv.unwrap().spec_is_promotion() {
                1
            } else {
                0
            },
            check: if in_check(pos) {
                1
            } else {
                0
            },
            checkmate: if mated {
                1
            } else {
                0
            },
        }
    } else {
        Tally::zero()
    }
}

/// Whether `mv` is one of the moves that are tried in a position: an answer
/// to the check when the king of the side to move is attacked, else a
/// pseudo-legal move.
pub open spec fn tried(pos: Position, mv: Move) -> bool {
    if in_check(pos) {
        evasion(pos, false, mv)
    } else {
        pseudo_legal(pos, mv)
    }
}

/// The tally of the positions that `depth` more moves lead to from a
/// position that `umv` has led to.  A position in which the side that has
/// just moved has left its king attacked counts for nothing.  With no move
/// left the position itself is counted; with moves left, the tallies of
/// the positions after each move that is tried are added up.
pub open spec fn tally(pos: Position, umv: Option<UndoableMove>, depth: nat) -> Tally
    decreases depth, 65537nat,
{
    if left_in_check(pos) {
        Tally::zero()
    } else if depth == 0 {
        leaf_tally(pos, umv)
    } else {
        tally_upto(pos, depth, 65536)
    }
}

/// The tally of the positions that `depth` more moves lead to, of which
/// the first is a move whose number is below `n`.
pub open spec fn tally_upto(pos: Position, depth: nat, n: nat) -> Tally
    decreases depth, n,
{
    if n == 0 || depth == 0 {
        Tally::zero()
    } else {
        tally_upto(pos, depth, (n - 1) as nat).plus(tally_after(pos, depth, Move((n - 1) as u32)))
    }
}

/// The tally of the positions that `depth` more moves lead to, of which
/// the first is `mv`: nothing when `mv` is not tried or cannot be played.
pub open spec fn tally_after(pos: Position, depth: nat, mv: Move) -> Tally
    decreases depth, 0nat,
{
    if depth > 0 && mv.0 < 65536 && tried(pos, mv) && pos.playable(mv) {
        tally(after(pos, mv), Some(Position::undo_record(pos.board@, mv)), (depth - 1) as nat)
    } else {
        Tally::zero()
    }
}

/// The tallies after the first `k` moves of a list, added up.
pub open spec fn tally_of_list(pos: Position, depth: nat, s: Seq<Move>, k: int) -> Tally
    decreases k,
{
    if k <= 0 {
        Tally::zero()
    } else {
        tally_of_list(pos, depth, s, k - 1).plus(tally_after(pos, depth, s[k - 1]))
    }
}

/// The tallies after the moves of a list whose number is below `n`, added
/// up.
pub open spec fn tally_of_set(pos: Position, depth: nat, s: Seq<Move>, n: nat) -> Tally
    decreases n,
{
    if n == 0 {
        Tally::zero()
    } else {
        tally_of_set(pos, depth, s, (n - 1) as nat).plus(
            if s.contains(Move((n - 1) as u32)) {
                tally_after(pos, depth, Move((n - 1) as u32))
            } else {
                Tally::zero()
            },
        )
    }
}

/// One more move in a list adds its tally to the tallies of the moves of
/// the list.
pub proof fn lemma_set_more(pos: Position, depth: nat, s: Seq<Move>, x: Move, n: nat)
    requires
        !s.contains(x),
        n <= 65536,
    ensures
        tally_of_set(pos, depth, s.push(x), n) == tally_of_set(pos, depth, s, n).plus(
            if x.0 < n {
                tally_after(pos, depth, x)
            } else {
                Tally::zero()
            },
        ),
    decreases n,
{
    if n > 0 {
        lemma_set_more(pos, depth, s, x, (n - 1) as nat);
        crate::movegen::general::lemma_push_contains(s, x);
        let m = Move((n - 1) as u32);
        assert((m == x) == (x.0 == n - 1));
    }
}

/// The tallies after the moves of a list in which no move occurs twice,
/// added up in the order of the list, are the tallies added up in the
/// order of the numbers of the moves.
pub proof fn lemma_list_is_set(pos: Position, depth: nat, s: Seq<Move>, k: int)
    requires
        s.no_duplicates(),
        0 <= k <= s.len(),
    ensures
        tally_of_list(pos, depth, s, k) == tally_of_set(pos, depth, s.subrange(0, k), 65536),
    decreases k,
{
    if k > 0 {
        let a = s.subrange(0, k - 1);
        let x = s[k - 1];
        lemma_list_is_set(pos, depth, s, k - 1);
        assert(s.subrange(0, k) =~= a.push(x));
        assert(!a.contains(x)) by {
            if a.contains(x) {
                let i = choose|i: int| 0 <= i < a.len() && a[i] == x;
                assert(s[i] == s[k - 1]);
            }
        }
        lemma_set_more(pos, depth, a, x, 65536);
    } else {
        lemma_set_none(pos, depth, s.subrange(0, 0), 65536);
    }
}

/// An empty list has no tally.
pub proof fn lemma_set_none(pos: Position, depth: nat, s: Seq<Move>, n: nat)
    requires
        s.len() == 0,
    ensures
        tally_of_set(pos, depth, s, n) == Tally::zero(),
    decreases n,
{
    if n > 0 {
        lemma_set_none(pos, depth, s, (n - 1) as nat);
    }
}

/// The tallies after the moves of a list that holds the moves that are
/// tried are the tally of the position.
pub proof fn lemma_set_is_tally(pos: Position, depth: nat, s: Seq<Move>, n: nat)
    requires
        depth > 0,
        n <= 65536,
        forall|m: Move| s.contains(m) == tried(pos, m),
    ensures
        tally_of_set(pos, depth, s, n) == tally_upto(pos, depth, n),
    decreases n,
{
    if n > 0 {
        lemma_set_is_tally(pos, depth, s, (n - 1) as nat);
        let m = Move((n - 1) as u32);
        assert(s.contains(m) == tried(pos, m));
        if !tried(pos, m) {
            assert(tally_after(pos, depth, m) == Tally::zero());
        }
        assert(tally_upto(pos, depth, n) == tally_upto(pos, depth, (n - 1) as nat).plus(
            tally_after(pos, depth, m),
        ));
    }
}

/// Adding two tallies one after the other is adding them together.
pub proof fn lemma_with_tally(stats: PerftStats, a: Tally, b: Tally)
    ensures
        with_tally(with_tally(stats, a), b) == with_tally(stats, a.plus(b)),
        with_tally(stats, Tally::zero()) == stats,
{
}

/// Counts the positions that `depth` more moves lead to, adding to
/// `stats`.  A position in which the side that has just moved has left its
/// king attacked counts for nothing, and neither does a mate given by
/// dropping a pawn.  The position is left as it was.
pub fn perft_dfs(pos: &mut Position, umv: Option<UndoableMove>, depth: u32, stats: &mut PerftStats)
    requires
        old(pos).wf(),
        umv.is_some() ==> umv.unwrap().spec_is_valid(),
    ensures
        *final(pos) == *old(pos),
        *final(stats) == with_tally(*old(stats), tally(*old(pos), umv, depth as nat)),
    decreases depth,
{
    let us = pos.side_to_move();
    let them = us.inv();
    let ghost p0 = *pos;
    let ghost st0 = *stats;
    proof {
        crate::attack::lemma_attack_count_bound(pos.board@, us, pos.king(them).0 as int);
        lemma_with_tally(st0, Tally::zero(), Tally::zero());
    }
    if pos.is_checked(them) {
        return ;
    }
    let checked: bool = pos.is_checked(us);
    if depth > 0 {
        let mvs: Vec<Move> = if checked {
            evasion_moves(pos, false)
        } else {
            all_moves(pos)
        };
        let n: usize = mvs.len();
        let mut i: usize = 0;
        assert(forall|m: Move| mvs@.contains(m) == tried(p0, m));
        while i < n
            invariant
                i <= n,
                n == mvs@.len(),
                *pos == p0,
                pos.wf(),
                depth > 0,
                mvs@.no_duplicates(),
                forall|m: Move| mvs@.contains(m) == tried(p0, m),
                *stats == with_tally(st0, tally_of_list(p0, depth as nat, mvs@, i as int)),
            decreases n - i,
        {
            let mv: Move = mvs[i];
            let ghost before = *stats;
            let ghost sofar = tally_of_list(p0, depth as nat, mvs@, i as int);
            proof {
                assert(mvs@.contains(mv));
                assert(tried(p0, mv));
                assert(mv.0 < 65536);
            }
            if pos.is_playable(mv) {
                let umv_nxt: UndoableMove = pos.do_move(mv);
                let ghost p1 = *pos;
                proof {
                    lemma_after(p0, mv, p1, umv_nxt);
                }
                perft_dfs(pos, Some(umv_nxt), depth - 1, stats);
                pos.undo_move(umv_nxt);
                proof {
                    lemma_undo_restores(p0, mv, p1, umv_nxt, *pos);
                }
            }
            proof {
                lemma_with_tally(st0, sofar, tally_after(p0, depth as nat, mv));
            }
            i += 1;
        }
        proof {
            lemma_list_is_set(p0, depth as nat, mvs@, n as int);
            assert(mvs@.subrange(0, n as int) =~= mvs@);
            lemma_set_is_tally(p0, depth as nat, mvs@, 65536);
        }
        return ;
    }
    let checkmated: bool = checked && pos.is_checkmated();
    if checkmated {
        match umv {
            Some(u) => {
                if u.is_drop() && u.dropped_piece_kind() == PieceKind::Pawn {
                    return ;
                }
            },
            None => {},
        }
    }
    let leaf: PerftLeafNode = PerftLeafNode::new(pos, umv, checked, checkmated);
    stats.record(&leaf);
}

/// Counts the positions that `depth` moves lead to.  The position is left
/// as it was.
pub fn perft(pos: &mut Position, depth: u32) -> (r: PerftStats)
    requires
        old(pos).wf(),
    ensures
        *final(pos) == *old(pos),
        r == with_tally(
            PerftStats {
                count_all: 0,
                count_capture: 0,
                count_promote: 0,
                count_check: 0,
                count_checkmate: 0,
            },
            tally(*old(pos), None, depth as nat),
        ),
{
    let mut stats: PerftStats = PerftStats::new();
    perft_dfs(pos, None, depth, &mut stats);
    stats
}

} // verus!
