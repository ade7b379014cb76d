//! The opening book: for each formation a table of branches (answers to
//! what HUM has played, and changes of formation) and a list of moves to
//! play in order.

use vstd::prelude::*;
use crate::shogi::{Side, Square};
use crate::piece::{Piece, PieceKind};
use crate::moves::Move;
use crate::naitou::Handicap;
use crate::position::Position;
use crate::bitop::lsb_u32;

verus! {

/// An opening formation; `Nothing` once the book is left.
#[derive(Clone, Copy, Debug, PartialEq, Eq, Structural, Hash)]
pub enum Formation {
    Nakabisha,
    Sikenbisha,
    Kakugawari,
    Sujichigai,
    HumHishaochi,
    HumNimaiochi,
    ComHishaochi,
    ComNimaiochi,
    Nothing,
}

/// An entry of a branch table.
#[derive(Clone, Copy, Debug, PartialEq, Eq, Structural)]
pub enum BookBranchEntry {
    Move(BookBranchMoveEntry),
    ChangeFormation(BookBranchChangeFormationEntry),
}

/// "If HUM has a piece of kind `pk` on `sq`, answer by moving from `src`
/// to `dst`", without promotion.
#[derive(Clone, Copy, Debug, PartialEq, Eq, Structural)]
pub struct BookBranchMoveEntry {
    pub sq: Square,
    pub pk: PieceKind,
    pub src: Square,
    pub dst: Square,
}

/// "If HUM has a piece of kind `pk` on `sq` and the progress ply is at most
/// `ply`, change to `formation`."
#[derive(Clone, Copy, Debug, PartialEq, Eq, Structural)]
pub struct BookBranchChangeFormationEntry {
    pub sq: Square,
    pub pk: PieceKind,
    pub formation: Formation,
    pub ply: u8,
}

/// A move of a move list, from `src` to `dst` without promotion.
#[derive(Clone, Copy, Debug, PartialEq, Eq, Structural)]
pub struct BookMovesEntry {
    pub src: Square,
    pub dst: Square,
}

impl BookBranchEntry {
    /// The entry that answers a piece of HUM by a move.
    pub fn new_move(sq: Square, pk: PieceKind, src: Square, dst: Square) -> (r: BookBranchEntry)
        ensures
            r == BookBranchEntry::Move(BookBranchMoveEntry { sq, pk, src, dst }),
    {
        BookBranchEntry::Move(BookBranchMoveEntry { sq, pk, src, dst })
    }

    /// The entry that answers a piece of HUM by a change of formation.
    pub fn new_change_formation(sq: Square, pk: PieceKind, formation: Formation, ply: u8) -> (r:
        BookBranchEntry)
        ensures
            r == BookBranchEntry::ChangeFormation(
                BookBranchChangeFormationEntry { sq, pk, formation, ply },
            ),
    {
        BookBranchEntry::ChangeFormation(BookBranchChangeFormationEntry { sq, pk, formation, ply })
    }

    /// The square and kind that the entry looks for.
    pub open spec fn wanted(self) -> (Square, PieceKind) {
        match self {
            BookBranchEntry::Move(e) => (e.sq, e.pk),
            BookBranchEntry::ChangeFormation(e) => (e.sq, e.pk),
        }
    }

    /// Whether the entry applies on board `b` at progress ply `ply`.
    pub open spec fn applies(self, b: Seq<Piece>, ply: u8) -> bool {
        match self {
            BookBranchEntry::Move(e) => b[e.sq.0 as int] == Piece::of(Side::Hum, e.pk),
            BookBranchEntry::ChangeFormation(e) => b[e.sq.0 as int] == Piece::of(Side::Hum, e.pk)
                && ply <= e.ply,
        }
    }
}

impl BookBranchMoveEntry {
    /// Whether HUM has the piece that the entry looks for.
    pub fn matches(&self, pos: &Position) -> (r: bool)
        requires
            self.sq.on_board(),
            self.pk.is_piece(),
        ensures
            r == (pos.board@[self.sq.0 as int] == Piece::of(Side::Hum, self.pk)),
    {
        pos.board().get(self.sq) == Piece::new(Side::Hum, self.pk)
    }
}

impl BookBranchChangeFormationEntry {
    /// Whether HUM has the piece that the entry looks for, and the progress
    /// ply is not beyond the entry's.
    pub fn matches(&self, pos: &Position, progress_ply: u8) -> (r: bool)
        requires
            self.sq.on_board(),
            self.pk.is_piece(),
        ensures
            r == (pos.board@[self.sq.0 as int] == Piece::of(Side::Hum, self.pk) && progress_ply
                <= self.ply),
    {
        pos.board().get(self.sq) == Piece::new(Side::Hum, self.pk) && progress_ply <= self.ply
    }
}

impl BookMovesEntry {
    /// The move from `src` to `dst`.
    pub fn new(src: Square, dst: Square) -> (r: BookMovesEntry)
        ensures
            r == (BookMovesEntry { src, dst }),
    {
        BookMovesEntry { src, dst }
    }
}

impl Formation {
    /// How many changes of formation can still follow.
    pub open spec fn rank(self) -> int {
        match self {
            Formation::Nakabisha | Formation::Sikenbisha => 2,
            Formation::Kakugawari => 1,
            _ => 0,
        }
    }

    /// The branch table of the formation.
    pub open spec fn branch_table(self) -> Seq<BookBranchEntry> {
        match self {
            Formation::Nakabisha => seq![
                BookBranchEntry::ChangeFormation(BookBranchChangeFormationEntry { sq: Square(10), pk: PieceKind::Bishop, formation: Formation::Kakugawari, ply: 5 }),
                BookBranchEntry::ChangeFormation(BookBranchChangeFormationEntry { sq: Square(10), pk: PieceKind::Horse, formation: Formation::Kakugawari, ply: 5 }),
                BookBranchEntry::Move(BookBranchMoveEntry { sq: Square(40), pk: PieceKind::Bishop, src: Square(38), dst: Square(39) }),
                BookBranchEntry::Move(BookBranchMoveEntry { sq: Square(32), pk: PieceKind::Bishop, src: Square(30), dst: Square(31) }),
                BookBranchEntry::Move(BookBranchMoveEntry { sq: Square(32), pk: PieceKind::Silver, src: Square(30), dst: Square(31) }),
                BookBranchEntry::Move(BookBranchMoveEntry { sq: Square(14), pk: PieceKind::Silver, src: Square(27), dst: Square(19) }),
                BookBranchEntry::Move(BookBranchMoveEntry { sq: Square(32), pk: PieceKind::Pawn, src: Square(10), dst: Square(20) }),
                BookBranchEntry::Move(BookBranchMoveEntry { sq: Square(77), pk: PieceKind::Pawn, src: Square(74), dst: Square(75) }),
                BookBranchEntry::Move(BookBranchMoveEntry { sq: Square(13), pk: PieceKind::Pawn, src: Square(10), dst: Square(20) }),
                BookBranchEntry::Move(BookBranchMoveEntry { sq: Square(22), pk: PieceKind::Silver, src: Square(30), dst: Square(31) }),
            ],
            Formation::Sikenbisha => seq![
                BookBranchEntry::ChangeFormation(BookBranchChangeFormationEntry { sq: Square(10), pk: PieceKind::Bishop, formation: Formation::Kakugawari, ply: 5 }),
                BookBranchEntry::ChangeFormation(BookBranchChangeFormationEntry { sq: Square(10), pk: PieceKind::Horse, formation: Formation::Kakugawari, ply: 5 }),
                BookBranchEntry::Move(BookBranchMoveEntry { sq: Square(40), pk: PieceKind::Bishop, src: Square(38), dst: Square(39) }),
                BookBranchEntry::Move(BookBranchMoveEntry { sq: Square(32), pk: PieceKind::Bishop, src: Square(30), dst: Square(31) }),
                BookBranchEntry::Move(BookBranchMoveEntry { sq: Square(32), pk: PieceKind::Silver, src: Square(30), dst: Square(31) }),
                BookBranchEntry::Move(BookBranchMoveEntry { sq: Square(14), pk: PieceKind::Silver, src: Square(28), dst: Square(19) }),
                BookBranchEntry::Move(BookBranchMoveEntry { sq: Square(32), pk: PieceKind::Pawn, src: Square(10), dst: Square(20) }),
                BookBranchEntry::Move(BookBranchMoveEntry { sq: Square(77), pk: PieceKind::Pawn, src: Square(74), dst: Square(75) }),
                BookBranchEntry::Move(BookBranchMoveEntry { sq: Square(13), pk: PieceKind::Pawn, src: Square(10), dst: Square(20) }),
                BookBranchEntry::Move(BookBranchMoveEntry { sq: Square(22), pk: PieceKind::Silver, src: Square(30), dst: Square(31) }),
            ],
            Formation::Kakugawari => seq![
                BookBranchEntry::ChangeFormation(BookBranchChangeFormationEntry { sq: Square(31), pk: PieceKind::Bishop, formation: Formation::Sujichigai, ply: 5 }),
                BookBranchEntry::ChangeFormation(BookBranchChangeFormationEntry { sq: Square(41), pk: PieceKind::Bishop, formation: Formation::Sujichigai, ply: 5 }),
                BookBranchEntry::Move(BookBranchMoveEntry { sq: Square(77), pk: PieceKind::Pawn, src: Square(74), dst: Square(75) }),
            ],
            Formation::Sujichigai => seq![
                BookBranchEntry::Move(BookBranchMoveEntry { sq: Square(77), pk: PieceKind::Pawn, src: Square(74), dst: Square(75) }),
                BookBranchEntry::Move(BookBranchMoveEntry { sq: Square(5), pk: PieceKind::Pawn, src: Square(2), dst: Square(3) }),
            ],
            Formation::HumHishaochi => seq![
                BookBranchEntry::Move(BookBranchMoveEntry { sq: Square(5), pk: PieceKind::Pawn, src: Square(2), dst: Square(3) }),
                BookBranchEntry::Move(BookBranchMoveEntry { sq: Square(77), pk: PieceKind::Pawn, src: Square(74), dst: Square(75) }),
                BookBranchEntry::Move(BookBranchMoveEntry { sq: Square(10), pk: PieceKind::Bishop, src: Square(18), dst: Square(10) }),
                BookBranchEntry::Move(BookBranchMoveEntry { sq: Square(10), pk: PieceKind::Horse, src: Square(18), dst: Square(10) }),
            ],
            Formation::HumNimaiochi => seq![
                BookBranchEntry::Move(BookBranchMoveEntry { sq: Square(41), pk: PieceKind::Pawn, src: Square(38), dst: Square(39) }),
            ],
            Formation::ComHishaochi => seq![
                BookBranchEntry::Move(BookBranchMoveEntry { sq: Square(13), pk: PieceKind::Pawn, src: Square(10), dst: Square(20) }),
                BookBranchEntry::Move(BookBranchMoveEntry { sq: Square(77), pk: PieceKind::Pawn, src: Square(74), dst: Square(75) }),
                BookBranchEntry::Move(BookBranchMoveEntry { sq: Square(5), pk: PieceKind::Pawn, src: Square(2), dst: Square(3) }),
            ],
            Formation::ComNimaiochi => seq![
                BookBranchEntry::Move(BookBranchMoveEntry { sq: Square(5), pk: PieceKind::Pawn, src: Square(2), dst: Square(3) }),
                BookBranchEntry::Move(BookBranchMoveEntry { sq: Square(77), pk: PieceKind::Pawn, src: Square(74), dst: Square(75) }),
                BookBranchEntry::Move(BookBranchMoveEntry { sq: Square(41), pk: PieceKind::Pawn, src: Square(38), dst: Square(39) }),
                BookBranchEntry::Move(BookBranchMoveEntry { sq: Square(22), pk: PieceKind::Pawn, src: Square(18), dst: Square(10) }),
            ],
            Formation::Nothing => Seq::empty(),
        }
    }

    /// The move list of the formation.
    pub open spec fn move_table(self) -> Seq<BookMovesEntry> {
        match self {
            Formation::Nakabisha => seq![
                BookMovesEntry { src: Square(20), dst: Square(21) },
                BookMovesEntry { src: Square(29), dst: Square(30) },
                BookMovesEntry { src: Square(18), dst: Square(28) },
                BookMovesEntry { src: Square(64), dst: Square(37) },
                BookMovesEntry { src: Square(28), dst: Square(29) },
                BookMovesEntry { src: Square(36), dst: Square(46) },
                BookMovesEntry { src: Square(46), dst: Square(55) },
                BookMovesEntry { src: Square(54), dst: Square(46) },
                BookMovesEntry { src: Square(10), dst: Square(20) },
                BookMovesEntry { src: Square(38), dst: Square(39) },
                BookMovesEntry { src: Square(47), dst: Square(48) },
                BookMovesEntry { src: Square(46), dst: Square(47) },
                BookMovesEntry { src: Square(45), dst: Square(46) },
                BookMovesEntry { src: Square(27), dst: Square(28) },
                BookMovesEntry { src: Square(28), dst: Square(38) },
                BookMovesEntry { src: Square(37), dst: Square(10) },
                BookMovesEntry { src: Square(11), dst: Square(12) },
                BookMovesEntry { src: Square(12), dst: Square(13) },
                BookMovesEntry { src: Square(30), dst: Square(31) },
            ],
            Formation::Sikenbisha => seq![
                BookMovesEntry { src: Square(20), dst: Square(21) },
                BookMovesEntry { src: Square(29), dst: Square(30) },
                BookMovesEntry { src: Square(18), dst: Square(19) },
                BookMovesEntry { src: Square(64), dst: Square(28) },
                BookMovesEntry { src: Square(19), dst: Square(29) },
                BookMovesEntry { src: Square(36), dst: Square(46) },
                BookMovesEntry { src: Square(46), dst: Square(55) },
                BookMovesEntry { src: Square(55), dst: Square(64) },
                BookMovesEntry { src: Square(54), dst: Square(55) },
                BookMovesEntry { src: Square(27), dst: Square(37) },
                BookMovesEntry { src: Square(10), dst: Square(20) },
                BookMovesEntry { src: Square(47), dst: Square(48) },
                BookMovesEntry { src: Square(37), dst: Square(47) },
                BookMovesEntry { src: Square(56), dst: Square(57) },
                BookMovesEntry { src: Square(28), dst: Square(27) },
                BookMovesEntry { src: Square(74), dst: Square(75) },
                BookMovesEntry { src: Square(30), dst: Square(31) },
            ],
            Formation::Kakugawari => seq![
                BookMovesEntry { src: Square(20), dst: Square(21) },
                BookMovesEntry { src: Square(18), dst: Square(10) },
                BookMovesEntry { src: Square(10), dst: Square(20) },
                BookMovesEntry { src: Square(54), dst: Square(46) },
                BookMovesEntry { src: Square(65), dst: Square(66) },
                BookMovesEntry { src: Square(27), dst: Square(19) },
                BookMovesEntry { src: Square(66), dst: Square(67) },
                BookMovesEntry { src: Square(45), dst: Square(37) },
                BookMovesEntry { src: Square(36), dst: Square(27) },
                BookMovesEntry { src: Square(47), dst: Square(48) },
                BookMovesEntry { src: Square(46), dst: Square(47) },
                BookMovesEntry { src: Square(56), dst: Square(57) },
                BookMovesEntry { src: Square(27), dst: Square(18) },
                BookMovesEntry { src: Square(18), dst: Square(10) },
                BookMovesEntry { src: Square(29), dst: Square(30) },
                BookMovesEntry { src: Square(37), dst: Square(29) },
                BookMovesEntry { src: Square(74), dst: Square(75) },
                BookMovesEntry { src: Square(63), dst: Square(56) },
                BookMovesEntry { src: Square(48), dst: Square(49) },
                BookMovesEntry { src: Square(47), dst: Square(39) },
            ],
            Formation::Sujichigai => seq![
                BookMovesEntry { src: Square(20), dst: Square(21) },
                BookMovesEntry { src: Square(18), dst: Square(10) },
                BookMovesEntry { src: Square(45), dst: Square(37) },
                BookMovesEntry { src: Square(27), dst: Square(19) },
                BookMovesEntry { src: Square(10), dst: Square(20) },
                BookMovesEntry { src: Square(54), dst: Square(46) },
                BookMovesEntry { src: Square(65), dst: Square(66) },
                BookMovesEntry { src: Square(66), dst: Square(67) },
                BookMovesEntry { src: Square(36), dst: Square(27) },
                BookMovesEntry { src: Square(47), dst: Square(48) },
                BookMovesEntry { src: Square(46), dst: Square(47) },
                BookMovesEntry { src: Square(38), dst: Square(39) },
                BookMovesEntry { src: Square(56), dst: Square(57) },
                BookMovesEntry { src: Square(63), dst: Square(56) },
                BookMovesEntry { src: Square(74), dst: Square(75) },
                BookMovesEntry { src: Square(2), dst: Square(3) },
                BookMovesEntry { src: Square(20), dst: Square(30) },
                BookMovesEntry { src: Square(48), dst: Square(49) },
            ],
            Formation::HumHishaochi => seq![
                BookMovesEntry { src: Square(20), dst: Square(21) },
                BookMovesEntry { src: Square(65), dst: Square(66) },
                BookMovesEntry { src: Square(66), dst: Square(67) },
                BookMovesEntry { src: Square(27), dst: Square(19) },
                BookMovesEntry { src: Square(54), dst: Square(46) },
                BookMovesEntry { src: Square(45), dst: Square(37) },
                BookMovesEntry { src: Square(36), dst: Square(27) },
                BookMovesEntry { src: Square(38), dst: Square(39) },
                BookMovesEntry { src: Square(56), dst: Square(57) },
                BookMovesEntry { src: Square(18), dst: Square(28) },
                BookMovesEntry { src: Square(47), dst: Square(48) },
                BookMovesEntry { src: Square(46), dst: Square(47) },
                BookMovesEntry { src: Square(63), dst: Square(56) },
                BookMovesEntry { src: Square(74), dst: Square(75) },
                BookMovesEntry { src: Square(2), dst: Square(3) },
                BookMovesEntry { src: Square(10), dst: Square(20) },
                BookMovesEntry { src: Square(48), dst: Square(49) },
            ],
            Formation::HumNimaiochi => seq![
                BookMovesEntry { src: Square(20), dst: Square(21) },
                BookMovesEntry { src: Square(47), dst: Square(48) },
                BookMovesEntry { src: Square(48), dst: Square(49) },
                BookMovesEntry { src: Square(64), dst: Square(46) },
                BookMovesEntry { src: Square(56), dst: Square(57) },
                BookMovesEntry { src: Square(57), dst: Square(58) },
                BookMovesEntry { src: Square(54), dst: Square(55) },
                BookMovesEntry { src: Square(55), dst: Square(56) },
                BookMovesEntry { src: Square(27), dst: Square(19) },
                BookMovesEntry { src: Square(45), dst: Square(37) },
                BookMovesEntry { src: Square(36), dst: Square(27) },
                BookMovesEntry { src: Square(18), dst: Square(28) },
                BookMovesEntry { src: Square(38), dst: Square(39) },
                BookMovesEntry { src: Square(56), dst: Square(57) },
                BookMovesEntry { src: Square(63), dst: Square(56) },
                BookMovesEntry { src: Square(74), dst: Square(75) },
                BookMovesEntry { src: Square(2), dst: Square(3) },
                BookMovesEntry { src: Square(46), dst: Square(45) },
                BookMovesEntry { src: Square(58), dst: Square(59) },
            ],
            Formation::ComHishaochi => seq![
                BookMovesEntry { src: Square(20), dst: Square(21) },
                BookMovesEntry { src: Square(29), dst: Square(30) },
                BookMovesEntry { src: Square(27), dst: Square(19) },
                BookMovesEntry { src: Square(18), dst: Square(28) },
                BookMovesEntry { src: Square(28), dst: Square(29) },
                BookMovesEntry { src: Square(36), dst: Square(46) },
                BookMovesEntry { src: Square(46), dst: Square(55) },
                BookMovesEntry { src: Square(54), dst: Square(46) },
                BookMovesEntry { src: Square(38), dst: Square(39) },
                BookMovesEntry { src: Square(2), dst: Square(3) },
                BookMovesEntry { src: Square(74), dst: Square(75) },
                BookMovesEntry { src: Square(47), dst: Square(48) },
                BookMovesEntry { src: Square(46), dst: Square(47) },
                BookMovesEntry { src: Square(45), dst: Square(46) },
                BookMovesEntry { src: Square(56), dst: Square(57) },
                BookMovesEntry { src: Square(10), dst: Square(20) },
            ],
            Formation::ComNimaiochi => seq![
                BookMovesEntry { src: Square(27), dst: Square(19) },
                BookMovesEntry { src: Square(54), dst: Square(46) },
                BookMovesEntry { src: Square(38), dst: Square(39) },
                BookMovesEntry { src: Square(46), dst: Square(38) },
                BookMovesEntry { src: Square(45), dst: Square(46) },
                BookMovesEntry { src: Square(47), dst: Square(48) },
                BookMovesEntry { src: Square(46), dst: Square(47) },
                BookMovesEntry { src: Square(56), dst: Square(57) },
                BookMovesEntry { src: Square(36), dst: Square(46) },
                BookMovesEntry { src: Square(2), dst: Square(3) },
                BookMovesEntry { src: Square(74), dst: Square(75) },
                BookMovesEntry { src: Square(63), dst: Square(56) },
                BookMovesEntry { src: Square(18), dst: Square(28) },
                BookMovesEntry { src: Square(48), dst: Square(49) },
            ],
            Formation::Nothing => Seq::empty(),
        }
    }

    /// Whether the book has been left.
    pub fn is_nothing(self) -> (r: bool)
        ensures
            r == (self == Formation::Nothing),
    {
        match self {
            Formation::Nothing => true,
            _ => false,
        }
    }

    /// The formation that a game of the given handicap starts with.
    pub fn from_handicap(handicap: Handicap) -> (r: Formation)
        ensures
            r == (match handicap {
                Handicap::HumSenteSikenbisha | Handicap::ComSenteSikenbisha => Formation::Sikenbisha,
                Handicap::HumSenteNakabisha | Handicap::ComSenteNakabisha => Formation::Nakabisha,
                Handicap::HumHishaochi => Formation::HumHishaochi,
                Handicap::HumNimaiochi => Formation::HumNimaiochi,
                Handicap::ComHishaochi => Formation::ComHishaochi,
                Handicap::ComNimaiochi => Formation::ComNimaiochi,
            }),
            r != Formation::Nothing,
    {
        match handicap {
            Handicap::HumSenteSikenbisha | Handicap::ComSenteSikenbisha => Formation::Sikenbisha,
            Handicap::HumSenteNakabisha | Handicap::ComSenteNakabisha => Formation::Nakabisha,
            Handicap::HumHishaochi => Formation::HumHishaochi,
            Handicap::HumNimaiochi => Formation::HumNimaiochi,
            Handicap::ComHishaochi => Formation::ComHishaochi,
            Handicap::ComNimaiochi => Formation::ComNimaiochi,
        }
    }

    /// The branch table of the formation.
    pub fn book_branch(self) -> (r: Vec<BookBranchEntry>)
        ensures
            r@ == self.branch_table(),
    {
        let r: Vec<BookBranchEntry> = match self {
            Formation::Nakabisha => vec![
                BookBranchEntry::ChangeFormation(BookBranchChangeFormationEntry { sq: Square(10), pk: PieceKind::Bishop, formation: Formation::Kakugawari, ply: 5 }),
                BookBranchEntry::ChangeFormation(BookBranchChangeFormationEntry { sq: Square(10), pk: PieceKind::Horse, formation: Formation::Kakugawari, ply: 5 }),
                BookBranchEntry::Move(BookBranchMoveEntry { sq: Square(40), pk: PieceKind::Bishop, src: Square(38), dst: Square(39) }),
                BookBranchEntry::Move(BookBranchMoveEntry { sq: Square(32), pk: PieceKind::Bishop, src: Square(30), dst: Square(31) }),
                BookBranchEntry::Move(BookBranchMoveEntry { sq: Square(32), pk: PieceKind::Silver, src: Square(30), dst: Square(31) }),
                BookBranchEntry::Move(BookBranchMoveEntry { sq: Square(14), pk: PieceKind::Silver, src: Square(27), dst: Square(19) }),
                BookBranchEntry::Move(BookBranchMoveEntry { sq: Square(32), pk: PieceKind::Pawn, src: Square(10), dst: Square(20) }),
                BookBranchEntry::Move(BookBranchMoveEntry { sq: Square(77), pk: PieceKind::Pawn, src: Square(74), dst: Square(75) }),
                BookBranchEntry::Move(BookBranchMoveEntry { sq: Square(13), pk: PieceKind::Pawn, src: Square(10), dst: Square(20) }),
                BookBranchEntry::Move(BookBranchMoveEntry { sq: Square(22), pk: PieceKind::Silver, src: Square(30), dst: Square(31) }),
            ],
            Formation::Sikenbisha => vec![
                BookBranchEntry::ChangeFormation(BookBranchChangeFormationEntry { sq: Square(10), pk: PieceKind::Bishop, formation: Formation::Kakugawari, ply: 5 }),
                BookBranchEntry::ChangeFormation(BookBranchChangeFormationEntry { sq: Square(10), pk: PieceKind::Horse, formation: Formation::Kakugawari, ply: 5 }),
                BookBranchEntry::Move(BookBranchMoveEntry { sq: Square(40), pk: PieceKind::Bishop, src: Square(38), dst: Square(39) }),
                BookBranchEntry::Move(BookBranchMoveEntry { sq: Square(32), pk: PieceKind::Bishop, src: Square(30), dst: Square(31) }),
                BookBranchEntry::Move(BookBranchMoveEntry { sq: Square(32), pk: PieceKind::Silver, src: Square(30), dst: Square(31) }),
                BookBranchEntry::Move(BookBranchMoveEntry { sq: Square(14), pk: PieceKind::Silver, src: Square(28), dst: Square(19) }),
                BookBranchEntry::Move(BookBranchMoveEntry { sq: Square(32), pk: PieceKind::Pawn, src: Square(10), dst: Square(20) }),
                BookBranchEntry::Move(BookBranchMoveEntry { sq: Square(77), pk: PieceKind::Pawn, src: Square(74), dst: Square(75) }),
                BookBranchEntry::Move(BookBranchMoveEntry { sq: Square(13), pk: PieceKind::Pawn, src: Square(10), dst: Square(20) }),
                BookBranchEntry::Move(BookBranchMoveEntry { sq: Square(22), pk: PieceKind::Silver, src: Square(30), dst: Square(31) }),
            ],
            Formation::Kakugawari => vec![
                BookBranchEntry::ChangeFormation(BookBranchChangeFormationEntry { sq: Square(31), pk: PieceKind::Bishop, formation: Formation::Sujichigai, ply: 5 }),
                BookBranchEntry::ChangeFormation(BookBranchChangeFormationEntry { sq: Square(41), pk: PieceKind::Bishop, formation: Formation::Sujichigai, ply: 5 }),
                BookBranchEntry::Move(BookBranchMoveEntry { sq: Square(77), pk: PieceKind::Pawn, src: Square(74), dst: Square(75) }),
            ],
            Formation::Sujichigai => vec![
                BookBranchEntry::Move(BookBranchMoveEntry { sq: Square(77), pk: PieceKind::Pawn, src: Square(74), dst: Square(75) }),
                BookBranchEntry::Move(BookBranchMoveEntry { sq: Square(5), pk: PieceKind::Pawn, src: Square(2), dst: Square(3) }),
            ],
            Formation::HumHishaochi => vec![
                BookBranchEntry::Move(BookBranchMoveEntry { sq: Square(5), pk: PieceKind::Pawn, src: Square(2), dst: Square(3) }),
                BookBranchEntry::Move(BookBranchMoveEntry { sq: Square(77), pk: PieceKind::Pawn, src: Square(74), dst: Square(75) }),
                BookBranchEntry::Move(BookBranchMoveEntry { sq: Square(10), pk: PieceKind::Bishop, src: Square(18), dst: Square(10) }),
                BookBranchEntry::Move(BookBranchMoveEntry { sq: Square(10), pk: PieceKind::Horse, src: Square(18), dst: Square(10) }),
            ],
            Formation::HumNimaiochi => vec![
                BookBranchEntry::Move(BookBranchMoveEntry { sq: Square(41), pk: PieceKind::Pawn, src: Square(38), dst: Square(39) }),
            ],
            Formation::ComHishaochi => vec![
                BookBranchEntry::Move(BookBranchMoveEntry { sq: Square(13), pk: PieceKind::Pawn, src: Square(10), dst: Square(20) }),
                BookBranchEntry::Move(BookBranchMoveEntry { sq: Square(77), pk: PieceKind::Pawn, src: Square(74), dst: Square(75) }),
                BookBranchEntry::Move(BookBranchMoveEntry { sq: Square(5), pk: PieceKind::Pawn, src: Square(2), dst: Square(3) }),
            ],
            Formation::ComNimaiochi => vec![
                BookBranchEntry::Move(BookBranchMoveEntry { sq: Square(5), pk: PieceKind::Pawn, src: Square(2), dst: Square(3) }),
                BookBranchEntry::Move(BookBranchMoveEntry { sq: Square(77), pk: PieceKind::Pawn, src: Square(74), dst: Square(75) }),
                BookBranchEntry::Move(BookBranchMoveEntry { sq: Square(41), pk: PieceKind::Pawn, src: Square(38), dst: Square(39) }),
                BookBranchEntry::Move(BookBranchMoveEntry { sq: Square(22), pk: PieceKind::Pawn, src: Square(18), dst: Square(10) }),
            ],
            Formation::Nothing => Vec::new(),
        };
        assert(r@ =~= self.branch_table());
        r
    }

    /// The move list of the formation.
    pub fn book_moves(self) -> (r: Vec<BookMovesEntry>)
        ensures
            r@ == self.move_table(),
    {
        let r: Vec<BookMovesEntry> = match self {
            Formation::Nakabisha => vec![
                BookMovesEntry { src: Square(20), dst: Square(21) },
                BookMovesEntry { src: Square(29), dst: Square(30) },
                BookMovesEntry { src: Square(18), dst: Square(28) },
                BookMovesEntry { src: Square(64), dst: Square(37) },
                BookMovesEntry { src: Square(28), dst: Square(29) },
                BookMovesEntry { src: Square(36), dst: Square(46) },
                BookMovesEntry { src: Square(46), dst: Square(55) },
                BookMovesEntry { src: Square(54), dst: Square(46) },
                BookMovesEntry { src: Square(10), dst: Square(20) },
                BookMovesEntry { src: Square(38), dst: Square(39) },
                BookMovesEntry { src: Square(47), dst: Square(48) },
                BookMovesEntry { src: Square(46), dst: Square(47) },
                BookMovesEntry { src: Square(45), dst: Square(46) },
                BookMovesEntry { src: Square(27), dst: Square(28) },
                BookMovesEntry { src: Square(28), dst: Square(38) },
                BookMovesEntry { src: Square(37), dst: Square(10) },
                BookMovesEntry { src: Square(11), dst: Square(12) },
                BookMovesEntry { src: Square(12), dst: Square(13) },
                BookMovesEntry { src: Square(30), dst: Square(31) },
            ],
            Formation::Sikenbisha => vec![
                BookMovesEntry { src: Square(20), dst: Square(21) },
                BookMovesEntry { src: Square(29), dst: Square(30) },
                BookMovesEntry { src: Square(18), dst: Square(19) },
                BookMovesEntry { src: Square(64), dst: Square(28) },
                BookMovesEntry { src: Square(19), dst: Square(29) },
                BookMovesEntry { src: Square(36), dst: Square(46) },
                BookMovesEntry { src: Square(46), dst: Square(55) },
                BookMovesEntry { src: Square(55), dst: Square(64) },
                BookMovesEntry { src: Square(54), dst: Square(55) },
                BookMovesEntry { src: Square(27), dst: Square(37) },
                BookMovesEntry { src: Square(10), dst: Square(20) },
                BookMovesEntry { src: Square(47), dst: Square(48) },
                BookMovesEntry { src: Square(37), dst: Square(47) },
                BookMovesEntry { src: Square(56), dst: Square(57) },
                BookMovesEntry { src: Square(28), dst: Square(27) },
                BookMovesEntry { src: Square(74), dst: Square(75) },
                BookMovesEntry { src: Square(30), dst: Square(31) },
            ],
            Formation::Kakugawari => vec![
                BookMovesEntry { src: Square(20), dst: Square(21) },
                BookMovesEntry { src: Square(18), dst: Square(10) },
                BookMovesEntry { src: Square(10), dst: Square(20) },
                BookMovesEntry { src: Square(54), dst: Square(46) },
                BookMovesEntry { src: Square(65), dst: Square(66) },
                BookMovesEntry { src: Square(27), dst: Square(19) },
                BookMovesEntry { src: Square(66), dst: Square(67) },
                BookMovesEntry { src: Square(45), dst: Square(37) },
                BookMovesEntry { src: Square(36), dst: Square(27) },
                BookMovesEntry { src: Square(47), dst: Square(48) },
                BookMovesEntry { src: Square(46), dst: Square(47) },
                BookMovesEntry { src: Square(56), dst: Square(57) },
                BookMovesEntry { src: Square(27), dst: Square(18) },
                BookMovesEntry { src: Square(18), dst: Square(10) },
                BookMovesEntry { src: Square(29), dst: Square(30) },
                BookMovesEntry { src: Square(37), dst: Square(29) },
                BookMovesEntry { src: Square(74), dst: Square(75) },
                BookMovesEntry { src: Square(63), dst: Square(56) },
                BookMovesEntry { src: Square(48), dst: Square(49) },
                BookMovesEntry { src: Square(47), dst: Square(39) },
            ],
            Formation::Sujichigai => vec![
                BookMovesEntry { src: Square(20), dst: Square(21) },
                BookMovesEntry { src: Square(18), dst: Square(10) },
                BookMovesEntry { src: Square(45), dst: Square(37) },
                BookMovesEntry { src: Square(27), dst: Square(19) },
                BookMovesEntry { src: Square(10), dst: Square(20) },
                BookMovesEntry { src: Square(54), dst: Square(46) },
                BookMovesEntry { src: Square(65), dst: Square(66) },
                BookMovesEntry { src: Square(66), dst: Square(67) },
                BookMovesEntry { src: Square(36), dst: Square(27) },
                BookMovesEntry { src: Square(47), dst: Square(48) },
                BookMovesEntry { src: Square(46), dst: Square(47) },
                BookMovesEntry { src: Square(38), dst: Square(39) },
                BookMovesEntry { src: Square(56), dst: Square(57) },
                BookMovesEntry { src: Square(63), dst: Square(56) },
                BookMovesEntry { src: Square(74), dst: Square(75) },
                BookMovesEntry { src: Square(2), dst: Square(3) },
                BookMovesEntry { src: Square(20), dst: Square(30) },
                BookMovesEntry { src: Square(48), dst: Square(49) },
            ],
            Formation::HumHishaochi => vec![
                BookMovesEntry { src: Square(20), dst: Square(21) },
                BookMovesEntry { src: Square(65), dst: Square(66) },
                BookMovesEntry { src: Square(66), dst: Square(67) },
                BookMovesEntry { src: Square(27), dst: Square(19) },
                BookMovesEntry { src: Square(54), dst: Square(46) },
                BookMovesEntry { src: Square(45), dst: Square(37) },
                BookMovesEntry { src: Square(36), dst: Square(27) },
                BookMovesEntry { src: Square(38), dst: Square(39) },
                BookMovesEntry { src: Square(56), dst: Square(57) },
                BookMovesEntry { src: Square(18), dst: Square(28) },
                BookMovesEntry { src: Square(47), dst: Square(48) },
                BookMovesEntry { src: Square(46), dst: Square(47) },
                BookMovesEntry { src: Square(63), dst: Square(56) },
                BookMovesEntry { src: Square(74), dst: Square(75) },
                BookMovesEntry { src: Square(2), dst: Square(3) },
                BookMovesEntry { src: Square(10), dst: Square(20) },
                BookMovesEntry { src: Square(48), dst: Square(49) },
            ],
            Formation::HumNimaiochi => vec![
                BookMovesEntry { src: Square(20), dst: Square(21) },
                BookMovesEntry { src: Square(47), dst: Square(48) },
                BookMovesEntry { src: Square(48), dst: Square(49) },
                BookMovesEntry { src: Square(64), dst: Square(46) },
                BookMovesEntry { src: Square(56), dst: Square(57) },
                BookMovesEntry { src: Square(57), dst: Square(58) },
                BookMovesEntry { src: Square(54), dst: Square(55) },
                BookMovesEntry { src: Square(55), dst: Square(56) },
                BookMovesEntry { src: Square(27), dst: Square(19) },
                BookMovesEntry { src: Square(45), dst: Square(37) },
                BookMovesEntry { src: Square(36), dst: Square(27) },
                BookMovesEntry { src: Square(18), dst: Square(28) },
                BookMovesEntry { src: Square(38), dst: Square(39) },
                BookMovesEntry { src: Square(56), dst: Square(57) },
                BookMovesEntry { src: Square(63), dst: Square(56) },
                BookMovesEntry { src: Square(74), dst: Square(75) },
                BookMovesEntry { src: Square(2), dst: Square(3) },
                BookMovesEntry { src: Square(46), dst: Square(45) },
                BookMovesEntry { src: Square(58), dst: Square(59) },
            ],
            Formation::ComHishaochi => vec![
                BookMovesEntry { src: Square(20), dst: Square(21) },
                BookMovesEntry { src: Square(29), dst: Square(30) },
                BookMovesEntry { src: Square(27), dst: Square(19) },
                BookMovesEntry { src: Square(18), dst: Square(28) },
                BookMovesEntry { src: Square(28), dst: Square(29) },
                BookMovesEntry { src: Square(36), dst: Square(46) },
                BookMovesEntry { src: Square(46), dst: Square(55) },
                BookMovesEntry { src: Square(54), dst: Square(46) },
                BookMovesEntry { src: Square(38), dst: Square(39) },
                BookMovesEntry { src: Square(2), dst: Square(3) },
                BookMovesEntry { src: Square(74), dst: Square(75) },
                BookMovesEntry { src: Square(47), dst: Square(48) },
                BookMovesEntry { src: Square(46), dst: Square(47) },
                BookMovesEntry { src: Square(45), dst: Square(46) },
                BookMovesEntry { src: Square(56), dst: Square(57) },
                BookMovesEntry { src: Square(10), dst: Square(20) },
            ],
            Formation::ComNimaiochi => vec![
                BookMovesEntry { src: Square(27), dst: Square(19) },
                BookMovesEntry { src: Square(54), dst: Square(46) },
                BookMovesEntry { src: Square(38), dst: Square(39) },
                BookMovesEntry { src: Square(46), dst: Square(38) },
                BookMovesEntry { src: Square(45), dst: Square(46) },
                BookMovesEntry { src: Square(47), dst: Square(48) },
                BookMovesEntry { src: Square(46), dst: Square(47) },
                BookMovesEntry { src: Square(56), dst: Square(57) },
                BookMovesEntry { src: Square(36), dst: Square(46) },
                BookMovesEntry { src: Square(2), dst: Square(3) },
                BookMovesEntry { src: Square(74), dst: Square(75) },
                BookMovesEntry { src: Square(63), dst: Square(56) },
                BookMovesEntry { src: Square(18), dst: Square(28) },
                BookMovesEntry { src: Square(48), dst: Square(49) },
            ],
            Formation::Nothing => Vec::new(),
        };
        assert(r@ =~= self.move_table());
        r
    }
}

/// Whether bit `i` of `mask` is set: entry `i` has not been used.
pub open spec fn unused(mask: u32, i: int) -> bool {
    0 <= i < 32 && (mask >> (i as u32)) & 1 == 1
}

/// `mask` with bit `i` cleared.
pub open spec fn without(mask: u32, i: int) -> u32 {
    mask & !(1u32 << (i as u32))
}

/// The mask whose `n` lowest bits are set.
pub open spec fn full_mask(n: int) -> u32 {
    ((1u32 << (n as u32)) - 1) as u32
}

/// The bits of a full mask, and of a mask with one bit cleared.
pub proof fn lemma_mask_bits(mask: u32, n: int, i: int)
    requires
        0 <= n < 32,
        0 <= i < 32,
    ensures
        forall|j: int| #[trigger] unused(full_mask(n), j) == (0 <= j < n),
        forall|j: int| #[trigger] unused(without(mask, i), j) == (unused(mask, j) && j != i),
        without(mask, i) <= mask,
        mask == 0 ==> forall|j: int| !(#[trigger] unused(mask, j)),
        (1u32 << (n as u32)) >= 1,
{
    let nn: u32 = n as u32;
    let ii: u32 = i as u32;
    assert forall|j: int| #[trigger] unused(full_mask(n), j) == (0 <= j < n) by {
        if 0 <= j < 32 {
            let jj: u32 = j as u32;
            assert((((((1u32 << nn) - 1) as u32) >> jj) & 1 == 1) == (jj < nn)) by (bit_vector)
                requires
                    nn < 32,
                    jj < 32,
            ;
        }
    }
    assert forall|j: int| #[trigger] unused(without(mask, i), j) == (unused(mask, j) && j != i) by {
        if 0 <= j < 32 {
            let jj: u32 = j as u32;
            assert((((mask & !(1u32 << ii)) >> jj) & 1 == 1) == (((mask >> jj) & 1 == 1) && jj != ii))
                by (bit_vector)
                requires
                    ii < 32,
                    jj < 32,
            ;
        }
    }
    assert((mask & !(1u32 << ii)) <= mask && (1u32 << nn) >= 1) by (bit_vector)
        requires
            nn < 32,
    ;
    if mask == 0 {
        assert forall|j: int| !(#[trigger] unused(mask, j)) by {
            if 0 <= j < 32 {
                let jj: u32 = j as u32;
                assert((0u32 >> jj) & 1 == 0) by (bit_vector);
            }
        }
    }
}

/// What the tables hold: at most 20 entries each, squares of the board,
/// kinds of piece, moves between different squares, and changes only to a
/// formation of lower rank.
pub proof fn lemma_tables(f: Formation)
    ensures
        f.branch_table().len() <= 20,
        f.move_table().len() <= 20,
        f != Formation::Nothing ==> f.move_table().len() >= 1,
        forall|i: int|
            0 <= i < f.branch_table().len() ==> (#[trigger] f.branch_table()[i]).wanted().0.on_board()
                && f.branch_table()[i].wanted().1.spec_is_piece(),
        forall|i: int|
            0 <= i < f.branch_table().len() ==> match #[trigger] f.branch_table()[i] {
                BookBranchEntry::Move(e) => e.src.on_board() && e.dst.on_board() && e.src != e.dst,
                BookBranchEntry::ChangeFormation(e) => e.formation.rank() < f.rank() && e.formation
                    != Formation::Nothing,
            },
        forall|i: int|
            0 <= i < f.move_table().len() ==> (#[trigger] f.move_table()[i]).src.on_board()
                && f.move_table()[i].dst.on_board() && f.move_table()[i].src != f.move_table()[i].dst,
{
}

/// The state of the book: the formation, and which entries of its two
/// tables have not been used yet.
#[derive(Clone, Copy, Debug, PartialEq, Eq, Structural, Hash)]
pub struct BookState {
    pub formation: Formation,
    /// Bit `i` is set while branch entry `i` has not been used.
    pub mask_unused_branch: u32,
    /// Bit `i` is set while move entry `i` has not been used.
    pub mask_unused_moves: u32,
}

/// The first entry from `i` on that has not been used and applies, or the
/// length of the table when there is none.
pub open spec fn first_hit(table: Seq<BookBranchEntry>, mask: u32, b: Seq<Piece>, ply: u8, i: int) -> int
    decreases table.len() - i,
{
    if i >= table.len() {
        table.len() as int
    } else if unused(mask, i) && table[i].applies(b, ply) {
        i
    } else {
        first_hit(table, mask, b, ply, i + 1)
    }
}

impl BookState {
    /// Only entries that exist are marked as not used.
    pub open spec fn wf(self) -> bool {
        self.formation != Formation::Nothing ==> {
            &&& forall|i: int|
                unused(self.mask_unused_branch, i) ==> i < self.formation.branch_table().len()
            &&& forall|i: int| unused(self.mask_unused_moves, i) ==> i < self.formation.move_table().len()
        }
    }

    /// The state at the start of `formation`: nothing has been used.
    pub open spec fn fresh(formation: Formation) -> BookState {
        BookState {
            formation,
            mask_unused_branch: full_mask(formation.branch_table().len() as int),
            mask_unused_moves: full_mask(formation.move_table().len() as int),
        }
    }

    /// The state after asking for the next book move on board `b` at
    /// progress ply `ply`, and the move, if the book gives one.
    ///
    /// The first branch entry that has not been used and applies decides:
    /// a move entry gives its move, a change of formation starts the new
    /// formation afresh and asks again.  When no branch entry applies, the
    /// first move of the list that has not been used is given.  When the
    /// list is used up, the book is left.  An entry that gives a move is
    /// marked as used, except at progress ply 0.
    pub open spec fn stepped(self, b: Seq<Piece>, ply: u8) -> (BookState, Option<Move>)
        decreases self.formation.rank(),
    {
        let table = self.formation.branch_table();
        let j = first_hit(table, self.mask_unused_branch, b, ply, 0);
        if j < table.len() {
            match table[j] {
                BookBranchEntry::Move(e) => (
                    BookState {
                        mask_unused_branch: if ply != 0 {
                            without(self.mask_unused_branch, j)
                        } else {
                            self.mask_unused_branch
                        },
                        ..self
                    },
                    Some(Move((e.dst.0 + 128 * e.src.0) as u32)),
                ),
                BookBranchEntry::ChangeFormation(e) => if e.formation.rank() < self.formation.rank() {
                    BookState::fresh(e.formation).stepped(b, ply)
                } else {
                    (self, None)
                },
            }
        } else if self.mask_unused_moves != 0 {
            let k = vstd::std_specs::bits::u32_trailing_zeros(self.mask_unused_moves) as int;
            let e = self.formation.move_table()[k];
            (
                BookState {
                    mask_unused_moves: if ply != 0 {
                        without(self.mask_unused_moves, k)
                    } else {
                        self.mask_unused_moves
                    },
                    ..self
                },
                Some(Move((e.dst.0 + 128 * e.src.0) as u32)),
            )
        } else {
            (BookState { formation: Formation::Nothing, ..self }, None)
        }
    }

    /// The state at the start of `formation`, which must not be `Nothing`.
    pub fn new(formation: Formation) -> (r: BookState)
        requires
            formation != Formation::Nothing,
        ensures
            r == BookState::fresh(formation),
            r.wf(),
    {
        let mut this: BookState = BookState {
            formation: Formation::Nothing,
            mask_unused_branch: 0,
            mask_unused_moves: 0,
        };
        this.change_formation(formation);
        this
    }

    /// The current formation.
    pub fn formation(self) -> (r: Formation)
        ensures
            r == self.formation,
    {
        self.formation
    }

    /// Changes to `formation` and marks all its entries as not used.
    pub fn change_formation(&mut self, formation: Formation)
        ensures
            *final(self) == BookState::fresh(formation),
            final(self).wf(),
    {
        proof {
            lemma_tables(formation);
            lemma_mask_bits(0, formation.branch_table().len() as int, 0);
            lemma_mask_bits(0, formation.move_table().len() as int, 0);
        }
        self.formation = formation;
        let nb: u32 = formation.book_branch().len() as u32;
        let nm: u32 = formation.book_moves().len() as u32;
        self.mask_unused_branch = (1u32 << nb) - 1;
        self.mask_unused_moves = (1u32 << nm) - 1;
    }

    /// Gives the next book move, or leaves the book when the formation has
    /// none left.  Whether the move can be played is not looked at.
    pub fn next_move(&mut self, pos: &Position, progress_ply: u8) -> (r: Option<Move>)
        requires
            old(self).wf(),
            old(self).formation != Formation::Nothing,
        ensures
            (*final(self), r) == old(self).stepped(pos.board@, progress_ply),
            final(self).wf(),
            r.is_none() == (final(self).formation == Formation::Nothing),
            r.is_some() ==> r.unwrap().spec_is_valid() && !r.unwrap().spec_is_drop()
                && !r.unwrap().spec_is_promotion(),
    {
        let ghost b = pos.board@;
        let ghost start = *self;
        loop
            invariant
                self.wf(),
                self.formation != Formation::Nothing,
                b == pos.board@,
                start == *old(self),
                start.stepped(b, progress_ply) == self.stepped(b, progress_ply),
            ensures
                self.wf(),
                self.formation != Formation::Nothing,
                start.stepped(b, progress_ply) == self.stepped(b, progress_ply),
                first_hit(
                    self.formation.branch_table(),
                    self.mask_unused_branch,
                    b,
                    progress_ply,
                    0,
                ) >= self.formation.branch_table().len(),
            decreases self.formation.rank(),
        {
            let table: Vec<BookBranchEntry> = self.formation.book_branch();
            let n: usize = table.len();
            let mut i: usize = 0;
            let mut restart: bool = false;
            let ghost r0 = self.formation.rank();
            proof {
                lemma_tables(self.formation);
            }
            while i < n && !restart
                invariant
                    i <= n,
                    n <= 20,
                    b == pos.board@,
                    start == *old(self),
                    self.formation != Formation::Nothing,
                    self.wf(),
                    !restart ==> table@ == self.formation.branch_table(),
                    n == table@.len(),
                    !restart ==> first_hit(table@, self.mask_unused_branch, b, progress_ply, 0)
                        == first_hit(table@, self.mask_unused_branch, b, progress_ply, i as int),
                    start.stepped(b, progress_ply) == self.stepped(b, progress_ply),
                    !restart ==> self.formation.rank() == r0,
                    restart ==> self.formation.rank() < r0,
                    forall|k: int|
                        0 <= k < table@.len() ==> (#[trigger] table@[k]).wanted().0.on_board()
                            && table@[k].wanted().1.spec_is_piece(),
                    !restart ==> forall|k: int|
                        0 <= k < table@.len() ==> match #[trigger] table@[k] {
                            BookBranchEntry::Move(e) => e.src.on_board() && e.dst.on_board() && e.src
                                != e.dst,
                            BookBranchEntry::ChangeFormation(e) => e.formation.rank()
                                < self.formation.rank() && e.formation != Formation::Nothing,
                        },
                decreases n - i, (if restart { 0int } else { 1int }),
            {
                let used: bool = (self.mask_unused_branch >> (i as u32)) & 1 != 1;
                let ghost cur = *self;
                if !used {
                    let entry: BookBranchEntry = table[i];
                    assert(entry.wanted().0.on_board());
                    match entry {
                        BookBranchEntry::Move(e) => {
                            if e.matches(pos) {
                                proof {
                                    lemma_mask_bits(self.mask_unused_branch, 0, i as int);
                                    assert(first_hit(
                                        table@,
                                        cur.mask_unused_branch,
                                        b,
                                        progress_ply,
                                        i as int,
                                    ) == i);
                                }
                                if progress_ply != 0 {
                                    self.mask_unused_branch = self.mask_unused_branch & !(1u32 << (
                                    i as u32));
                                }
                                let mv: Move = Move::new_walk(e.src, e.dst);
                                proof {
                                    assert(cur.stepped(b, progress_ply) == (*self, Some(mv)));
                                }
                                return Some(mv);
                            }
                        },
                        BookBranchEntry::ChangeFormation(e) => {
                            if e.matches(pos, progress_ply) {
                                proof {
                                    assert(first_hit(
                                        table@,
                                        cur.mask_unused_branch,
                                        b,
                                        progress_ply,
                                        i as int,
                                    ) == i);
                                    assert(cur.stepped(b, progress_ply) == BookState::fresh(
                                        e.formation,
                                    ).stepped(b, progress_ply));
                                }
                                self.change_formation(e.formation);
                                restart = true;
                            }
                        },
                    }
                }
                if !restart {
                    i += 1;
                }
            }
            if !restart {
                break ;
            }
        }
        let ghost cur = *self;
        if self.mask_unused_moves != 0 {
            proof {
                lemma_tables(self.formation);
                vstd::std_specs::bits::axiom_u32_trailing_zeros(self.mask_unused_moves);
            }
            let i: u32 = lsb_u32(self.mask_unused_moves);
            assert(unused(self.mask_unused_moves, i as int));
            let moves: Vec<BookMovesEntry> = self.formation.book_moves();
            let e: BookMovesEntry = moves[i as usize];
            proof {
                lemma_mask_bits(self.mask_unused_moves, 0, i as int);
            }
            if progress_ply != 0 {
                self.mask_unused_moves = self.mask_unused_moves & !(1u32 << i);
            }
            let mv: Move = Move::new_walk(e.src, e.dst);
            proof {
                assert(cur.stepped(b, progress_ply) == (*self, Some(mv)));
            }
            return Some(mv);
        }
        self.formation = Formation::Nothing;
        proof {
            assert(cur.stepped(b, progress_ply) == (*self, None::<Move>));
        }
        None
    }
}

} // verus!
