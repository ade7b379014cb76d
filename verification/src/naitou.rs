//! What is particular to the console program: its handicaps, its numbering
//! of squares and pieces, its piece prices and its choice of the attacker of
//! a square.

use vstd::prelude::*;
use crate::shogi::{Side, Square};
use crate::piece::{Piece, PieceKind};
use crate::board::{Board, Hands};
use crate::position::Position;
use crate::bbs::{attacks, effect};
use crate::bitboard::Bitboard;

verus! {

/// The handicap of a game, which also fixes who moves first and which
/// opening the engine starts with.
#[derive(Clone, Copy, Debug, PartialEq, Eq, Structural, Hash)]
pub enum Handicap {
    HumSenteSikenbisha,
    HumSenteNakabisha,
    HumHishaochi,
    HumNimaiochi,
    ComSenteSikenbisha,
    ComSenteNakabisha,
    ComHishaochi,
    ComNimaiochi,
}

/// No handicap has the given starting position.
#[derive(Clone, Copy, Debug, PartialEq, Eq, Structural, Hash)]
pub struct NoHandicapMatches;

impl Handicap {
    /// The side that moves first.
    pub open spec fn first_mover(self) -> Side {
        match self {
            Handicap::HumSenteSikenbisha | Handicap::HumSenteNakabisha | Handicap::HumHishaochi
            | Handicap::HumNimaiochi => Side::Hum,
            _ => Side::Com,
        }
    }

    /// The board at the start: the even position, without HUM's rook
    /// (`HumHishaochi`), without HUM's rook and bishop (`HumNimaiochi`),
    /// without COM's rook (`ComHishaochi`) or without COM's rook and bishop
    /// (`ComNimaiochi`).
    pub open spec fn start_board(self) -> Seq<Piece> {
        let b = Board::startpos_spec();
        match self {
            Handicap::HumHishaochi => b.update(16, Piece::NoPiece),
            Handicap::HumNimaiochi => b.update(16, Piece::NoPiece).update(70, Piece::NoPiece),
            Handicap::ComHishaochi => b.update(64, Piece::NoPiece),
            Handicap::ComNimaiochi => b.update(64, Piece::NoPiece).update(10, Piece::NoPiece),
            _ => b,
        }
    }

    /// The handicap whose starting position is the given one; with an even
    /// position, `timelimit` chooses between the two openings.
    pub open spec fn matching(side_to_move: Side, board: Seq<Piece>, hands_empty: bool, timelimit: bool)
        -> Option<Handicap> {
        if !hands_empty {
            None
        } else if side_to_move == Side::Hum && board =~= Handicap::HumSenteSikenbisha.start_board() {
            Some(
                if timelimit {
                    Handicap::HumSenteNakabisha
                } else {
                    Handicap::HumSenteSikenbisha
                },
            )
        } else if side_to_move == Side::Hum && board =~= Handicap::HumHishaochi.start_board() {
            Some(Handicap::HumHishaochi)
        } else if side_to_move == Side::Hum && board =~= Handicap::HumNimaiochi.start_board() {
            Some(Handicap::HumNimaiochi)
        } else if side_to_move == Side::Com && board =~= Handicap::ComSenteSikenbisha.start_board() {
            Some(
                if timelimit {
                    Handicap::ComSenteNakabisha
                } else {
                    Handicap::ComSenteSikenbisha
                },
            )
        } else if side_to_move == Side::Com && board =~= Handicap::ComHishaochi.start_board() {
            Some(Handicap::ComHishaochi)
        } else if side_to_move == Side::Com && board =~= Handicap::ComNimaiochi.start_board() {
            Some(Handicap::ComNimaiochi)
        } else {
            None
        }
    }

    /// The handicap whose starting position is the given one, or an error
    /// when there is none.
    pub fn from_startpos(side_to_move: Side, board: &Board, hands: &Hands, timelimit: bool) -> (r:
        Result<Handicap, NoHandicapMatches>)
        ensures
            r == (match Handicap::matching(
                side_to_move,
                board@,
                (forall|i: int| 0 <= i < 8 ==> hands.of(Side::Hum)@[i] == 0) && (forall|i: int|
                    0 <= i < 8 ==> hands.of(Side::Com)@[i] == 0),
                timelimit,
            ) {
                Some(h) => Ok::<Handicap, NoHandicapMatches>(h),
                None => Err::<Handicap, NoHandicapMatches>(NoHandicapMatches),
            }),
    {
        let empty: bool = hands.get(Side::Hum).is_empty() && hands.get(Side::Com).is_empty();
        if !empty {
            return Err(NoHandicapMatches);
        }
        if Handicap::HumSenteSikenbisha.starts_with(side_to_move, board) {
            return Ok(
                if timelimit {
                    Handicap::HumSenteNakabisha
                } else {
                    Handicap::HumSenteSikenbisha
                },
            );
        }
        if Handicap::HumHishaochi.starts_with(side_to_move, board) {
            return Ok(Handicap::HumHishaochi);
        }
        if Handicap::HumNimaiochi.starts_with(side_to_move, board) {
            return Ok(Handicap::HumNimaiochi);
        }
        if Handicap::ComSenteSikenbisha.starts_with(side_to_move, board) {
            return Ok(
                if timelimit {
                    Handicap::ComSenteNakabisha
                } else {
                    Handicap::ComSenteSikenbisha
                },
            );
        }
        if Handicap::ComHishaochi.starts_with(side_to_move, board) {
            return Ok(Handicap::ComHishaochi);
        }
        if Handicap::ComNimaiochi.starts_with(side_to_move, board) {
            return Ok(Handicap::ComNimaiochi);
        }
        Err(NoHandicapMatches)
    }

    /// Whether the game of this handicap starts with `side_to_move` to play
    /// on `board`.
    pub fn starts_with(self, side_to_move: Side, board: &Board) -> (r: bool)
        ensures
            r == (side_to_move == self.first_mover() && board@ =~= self.start_board()),
    {
        let (s, b, _hs) = self.startpos();
        s == side_to_move && board.same(&b)
    }

    /// The starting position as a position string.
    pub fn sfen(self) -> (r: &'static str)
        ensures
            r@ == self.sfen_spec()@,
    {
        match self {
            Handicap::HumSenteSikenbisha | Handicap::HumSenteNakabisha => "startpos",
            Handicap::HumHishaochi => "sfen lnsgkgsnl/1r5b1/ppppppppp/9/9/9/PPPPPPPPP/1B7/LNSGKGSNL b - 1",
            Handicap::HumNimaiochi => "sfen lnsgkgsnl/1r5b1/ppppppppp/9/9/9/PPPPPPPPP/9/LNSGKGSNL b - 1",
            Handicap::ComSenteSikenbisha | Handicap::ComSenteNakabisha => "sfen lnsgkgsnl/1r5b1/ppppppppp/9/9/9/PPPPPPPPP/1B5R1/LNSGKGSNL w - 1",
            Handicap::ComHishaochi => "sfen lnsgkgsnl/7b1/ppppppppp/9/9/9/PPPPPPPPP/1B5R1/LNSGKGSNL w - 1",
            Handicap::ComNimaiochi => "sfen lnsgkgsnl/9/ppppppppp/9/9/9/PPPPPPPPP/1B5R1/LNSGKGSNL w - 1",
        }
    }

    /// The starting position as a position string, as a specification.
    pub open spec fn sfen_spec(self) -> &'static str {
        match self {
            Handicap::HumSenteSikenbisha | Handicap::HumSenteNakabisha => "startpos",
            Handicap::HumHishaochi => "sfen lnsgkgsnl/1r5b1/ppppppppp/9/9/9/PPPPPPPPP/1B7/LNSGKGSNL b - 1",
            Handicap::HumNimaiochi => "sfen lnsgkgsnl/1r5b1/ppppppppp/9/9/9/PPPPPPPPP/9/LNSGKGSNL b - 1",
            Handicap::ComSenteSikenbisha | Handicap::ComSenteNakabisha => "sfen lnsgkgsnl/1r5b1/ppppppppp/9/9/9/PPPPPPPPP/1B5R1/LNSGKGSNL w - 1",
            Handicap::ComHishaochi => "sfen lnsgkgsnl/7b1/ppppppppp/9/9/9/PPPPPPPPP/1B5R1/LNSGKGSNL w - 1",
            Handicap::ComNimaiochi => "sfen lnsgkgsnl/9/ppppppppp/9/9/9/PPPPPPPPP/1B5R1/LNSGKGSNL w - 1",
        }
    }

    /// The starting position: who moves first, the board, and the hands,
    /// which are empty.
    pub fn startpos(self) -> (r: (Side, Board, Hands))
        ensures
            r.0 == self.first_mover(),
            r.1@ =~= self.start_board(),
            forall|s: Side, i: int| 0 <= i < 8 ==> r.2.of(s)@[i] == 0,
            Position::buildable(r.1@, r.2),
    {
        let mut board: Board = Board::startpos();
        match self {
            Handicap::HumHishaochi => {
                board.set(Square(16), Piece::NoPiece);
            },
            Handicap::HumNimaiochi => {
                board.set(Square(16), Piece::NoPiece);
                board.set(Square(70), Piece::NoPiece);
            },
            Handicap::ComHishaochi => {
                board.set(Square(64), Piece::NoPiece);
            },
            Handicap::ComNimaiochi => {
                board.set(Square(64), Piece::NoPiece);
                board.set(Square(10), Piece::NoPiece);
            },
            _ => {},
        }
        let hands: Hands = Hands::empty();
        proof {
            assert(crate::position::king_at(board@, Side::Hum, Square(44)));
            assert(crate::position::king_at(board@, Side::Com, Square(36)));
            crate::position::lemma_count_bound(board@, Side::Hum, 81);
            crate::position::lemma_count_bound(board@, Side::Com, 81);
        }
        (self.side_to_move(), board, hands)
    }

    /// The side that moves first.
    pub fn side_to_move(self) -> (r: Side)
        ensures
            r == self.first_mover(),
    {
        match self {
            Handicap::HumSenteSikenbisha | Handicap::HumSenteNakabisha | Handicap::HumHishaochi
            | Handicap::HumNimaiochi => Side::Hum,
            _ => Side::Com,
        }
    }
}

/// The console's number of a square: `11 * rank + 10 - file`, files and
/// ranks counted from 1.
pub open spec fn square_value(q: int) -> int {
    11 * (q % 9 + 1) + 9 - q / 9
}

/// The console's number of a square.
pub open spec fn value_of_square(sq: Square) -> int {
    square_value(sq.0 as int)
}

/// The square with the console's number `value`; 99 stands for no square.
/// Other numbers that belong to no square give a square that is off the
/// board.
pub fn naitou_square_from_value(value: u8) -> (r: Option<Square>)
    ensures
        r == (if value == 99 {
            None
        } else {
            Some(Square((9 * (9 - value % 11) + value / 11 - 1) as i32))
        }),
        forall|q: int| 0 <= q < 81 && value == square_value(q) ==> r == Some(Square(q as i32)),
{
    if value == 99 {
        None
    } else {
        let c: i32 = 9 - (value % 11) as i32;
        let w: i32 = (value / 11) as i32 - 1;
        Some(Square(9 * c + w))
    }
}

/// The console's number of an on-board square.
pub fn naitou_square_to_value(sq: Square) -> (r: u8)
    requires
        sq.on_board(),
    ensures
        r == square_value(sq.0 as int),
        12 <= r <= 108,
{
    (11 * (sq.0 % 9 + 1) + 9 - sq.0 / 9) as u8
}

/// The distance between two squares, where no square counts as the square
/// just off the board on file 10, rank 9.
pub open spec fn phantom_dist(sq1: Option<Square>, sq2: Square) -> int {
    match sq1 {
        Some(s) => s.dist(sq2),
        None => {
            let dx = 9 - sq2.c();
            let dy = 8 - sq2.r();
            if dx < dy {
                dy
            } else {
                dx
            }
        },
    }
}

/// The same distance as a byte.
pub open spec fn phantom_dist8(sq1: Option<Square>, sq2: Square) -> u8 {
    phantom_dist(sq1, sq2) as u8
}

/// The distance between two squares, where no square counts as the square
/// just off the board on file 10, rank 9.
#[verifier::when_used_as_spec(phantom_dist8)]
pub fn naitou_square_distance(sq1: Option<Square>, sq2: Square) -> (r: u8)
    requires
        sq2.on_board(),
        sq1.is_some() ==> sq1.unwrap().on_board(),
    ensures
        r == phantom_dist(sq1, sq2),
        r == phantom_dist8(sq1, sq2),
        r <= 9,
{
    match sq1 {
        Some(s) => s.distance(sq2),
        None => {
            let dx: u8 = (9 - sq2.0 / 9) as u8;
            let dy: u8 = (8 - sq2.0 % 9) as u8;
            if dx < dy {
                dy
            } else {
                dx
            }
        },
    }
}

/// The square at place `n` of the console's scan: rank by rank from the
/// top, each rank from file 9 to file 1.
pub open spec fn scan_square(n: int) -> Square {
    Square((9 * (8 - n % 9) + n / 9) as i32)
}

/// The place of a square in the console's scan.
pub open spec fn scan_index(q: int) -> int {
    9 * (q % 9) + 8 - q / 9
}

/// All squares in the order of the console's scan.
pub fn naitou_squares() -> (r: Vec<Square>)
    ensures
        r@.len() == 81,
        forall|n: int| 0 <= n < 81 ==> #[trigger] r@[n] == scan_square(n) && r@[n].on_board(),
        forall|q: int| 0 <= q < 81 ==> r@[scan_index(q)] == Square(q as i32),
{
    let mut v: Vec<Square> = Vec::new();
    let mut n: i32 = 0;
    while n < 81
        invariant
            0 <= n <= 81,
            v@.len() == n,
            forall|k: int| 0 <= k < n ==> #[trigger] v@[k] == scan_square(k) && v@[k].on_board(),
        decreases 81 - n,
    {
        v.push(Square(9 * (8 - n % 9) + n / 9));
        n += 1;
    }
    proof {
        assert forall|q: int| 0 <= q < 81 implies v@[scan_index(q)] == Square(q as i32) by {
            let k = scan_index(q);
            assert(v@[k] == scan_square(k));
        }
    }
    v
}

/// The piece with the console's number `value`, if there is one.
pub fn naitou_piece_from_value(value: u8) -> (r: Option<Piece>)
    ensures
        r == piece_of_console_value(value as int),
{
    match value {
        0 => Some(Piece::NoPiece),
        1 => Some(Piece::HKing),
        2 => Some(Piece::HRook),
        3 => Some(Piece::HBishop),
        4 => Some(Piece::HGold),
        5 => Some(Piece::HSilver),
        6 => Some(Piece::HKnight),
        7 => Some(Piece::HLance),
        8 => Some(Piece::HPawn),
        9 => Some(Piece::HDragon),
        10 => Some(Piece::HHorse),
        12 => Some(Piece::HProSilver),
        13 => Some(Piece::HProKnight),
        14 => Some(Piece::HProLance),
        15 => Some(Piece::HProPawn),
        16 => Some(Piece::CKing),
        17 => Some(Piece::CRook),
        18 => Some(Piece::CBishop),
        19 => Some(Piece::CGold),
        20 => Some(Piece::CSilver),
        21 => Some(Piece::CKnight),
        22 => Some(Piece::CLance),
        23 => Some(Piece::CPawn),
        24 => Some(Piece::CDragon),
        25 => Some(Piece::CHorse),
        27 => Some(Piece::CProSilver),
        28 => Some(Piece::CProKnight),
        29 => Some(Piece::CProLance),
        30 => Some(Piece::CProPawn),
        _ => None,
    }
}

/// The piece with the console's number `v`: 0 is no piece, 1 to 15 are
/// HUM's pieces from king to promoted pawn, and 16 more gives COM's.
pub open spec fn piece_of_console_value(v: int) -> Option<Piece> {
    if v == 0 {
        Some(Piece::NoPiece)
    } else if 1 <= v <= 30 && v % 15 != 11 {
        let k = if v >= 16 { v - 15 } else { v };
        let pk = if k == 1 {
            PieceKind::King
        } else if k == 2 {
            PieceKind::Rook
        } else if k == 3 {
            PieceKind::Bishop
        } else if k == 4 {
            PieceKind::Gold
        } else if k == 5 {
            PieceKind::Silver
        } else if k == 6 {
            PieceKind::Knight
        } else if k == 7 {
            PieceKind::Lance
        } else if k == 8 {
            PieceKind::Pawn
        } else if k == 9 {
            PieceKind::Dragon
        } else if k == 10 {
            PieceKind::Horse
        } else if k == 12 {
            PieceKind::ProSilver
        } else if k == 13 {
            PieceKind::ProKnight
        } else if k == 14 {
            PieceKind::ProLance
        } else {
            PieceKind::ProPawn
        };
        Some(Piece::of(if v >= 16 { Side::Com } else { Side::Hum }, pk))
    } else {
        None
    }
}

/// Whether `pk` is a promoted minor piece: a promoted pawn, lance, knight
/// or silver.
pub open spec fn promoted_minor(pk: PieceKind) -> bool {
    pk == PieceKind::ProPawn || pk == PieceKind::ProLance || pk == PieceKind::ProKnight || pk
        == PieceKind::ProSilver
}

/// The four price tables differ only for promoted minor pieces.
pub proof fn lemma_prices_agree(pk: PieceKind)
    requires
        !promoted_minor(pk),
    ensures
        price_a(pk) == price_b(pk),
        price_b(pk) == price_c(pk),
        price_c(pk) == price_d(pk),
{
}

/// The price of a kind in table A, used to pick the attacker of a square and to price a captured piece.
pub open spec fn price_a(pk: PieceKind) -> int {
    match pk {
        PieceKind::NoPieceKind => 255,
        PieceKind::Pawn => 1,
        PieceKind::Lance => 4,
        PieceKind::Knight => 4,
        PieceKind::Silver => 8,
        PieceKind::Bishop => 16,
        PieceKind::Rook => 17,
        PieceKind::Gold => 8,
        PieceKind::King => 40,
        PieceKind::ProPawn => 2,
        PieceKind::ProLance => 5,
        PieceKind::ProKnight => 6,
        PieceKind::ProSilver => 8,
        PieceKind::Horse => 20,
        PieceKind::Dragon => 22,
    }
}

/// The price of a kind in table A, used to pick the attacker of a square and to price a captured piece.
pub fn naitou_piece_price_a(pk: PieceKind) -> (r: u8)
    ensures
        r == price_a(pk),
        pk.is_piece() ==> 1 <= r <= 40,
{
    match pk {
        PieceKind::NoPieceKind => 255,
        PieceKind::Pawn => 1,
        PieceKind::Lance => 4,
        PieceKind::Knight => 4,
        PieceKind::Silver => 8,
        PieceKind::Bishop => 16,
        PieceKind::Rook => 17,
        PieceKind::Gold => 8,
        PieceKind::King => 40,
        PieceKind::ProPawn => 2,
        PieceKind::ProLance => 5,
        PieceKind::ProKnight => 6,
        PieceKind::ProSilver => 8,
        PieceKind::Horse => 20,
        PieceKind::Dragon => 22,
    }
}

/// The price of a kind in table B, used for the HUM piece and the COM attacker on an advantage square.
pub open spec fn price_b(pk: PieceKind) -> int {
    match pk {
        PieceKind::NoPieceKind => 255,
        PieceKind::Pawn => 1,
        PieceKind::Lance => 4,
        PieceKind::Knight => 4,
        PieceKind::Silver => 8,
        PieceKind::Bishop => 16,
        PieceKind::Rook => 17,
        PieceKind::Gold => 8,
        PieceKind::King => 40,
        PieceKind::ProPawn => 8,
        PieceKind::ProLance => 8,
        PieceKind::ProKnight => 8,
        PieceKind::ProSilver => 8,
        PieceKind::Horse => 20,
        PieceKind::Dragon => 22,
    }
}

/// The price of a kind in table B, used for the HUM piece and the COM attacker on an advantage square.
pub fn naitou_piece_price_b(pk: PieceKind) -> (r: u8)
    ensures
        r == price_b(pk),
        pk.is_piece() ==> 1 <= r <= 40,
{
    match pk {
        PieceKind::NoPieceKind => 255,
        PieceKind::Pawn => 1,
        PieceKind::Lance => 4,
        PieceKind::Knight => 4,
        PieceKind::Silver => 8,
        PieceKind::Bishop => 16,
        PieceKind::Rook => 17,
        PieceKind::Gold => 8,
        PieceKind::King => 40,
        PieceKind::ProPawn => 8,
        PieceKind::ProLance => 8,
        PieceKind::ProKnight => 8,
        PieceKind::ProSilver => 8,
        PieceKind::Horse => 20,
        PieceKind::Dragon => 22,
    }
}

/// The price of a kind in table C, used for the HUM attacker on a disadvantage square.
pub open spec fn price_c(pk: PieceKind) -> int {
    match pk {
        PieceKind::NoPieceKind => 255,
        PieceKind::Pawn => 1,
        PieceKind::Lance => 4,
        PieceKind::Knight => 4,
        PieceKind::Silver => 8,
        PieceKind::Bishop => 16,
        PieceKind::Rook => 17,
        PieceKind::Gold => 8,
        PieceKind::King => 40,
        PieceKind::ProPawn => 2,
        PieceKind::ProLance => 8,
        PieceKind::ProKnight => 8,
        PieceKind::ProSilver => 8,
        PieceKind::Horse => 20,
        PieceKind::Dragon => 22,
    }
}

/// The price of a kind in table C, used for the HUM attacker on a disadvantage square.
pub fn naitou_piece_price_c(pk: PieceKind) -> (r: u8)
    ensures
        r == price_c(pk),
        pk.is_piece() ==> 1 <= r <= 40,
{
    match pk {
        PieceKind::NoPieceKind => 255,
        PieceKind::Pawn => 1,
        PieceKind::Lance => 4,
        PieceKind::Knight => 4,
        PieceKind::Silver => 8,
        PieceKind::Bishop => 16,
        PieceKind::Rook => 17,
        PieceKind::Gold => 8,
        PieceKind::King => 40,
        PieceKind::ProPawn => 2,
        PieceKind::ProLance => 8,
        PieceKind::ProKnight => 8,
        PieceKind::ProSilver => 8,
        PieceKind::Horse => 20,
        PieceKind::Dragon => 22,
    }
}

/// The price of a kind in table D, used for the COM piece and the COM attacker on a disadvantage square.
pub open spec fn price_d(pk: PieceKind) -> int {
    match pk {
        PieceKind::NoPieceKind => 255,
        PieceKind::Pawn => 1,
        PieceKind::Lance => 4,
        PieceKind::Knight => 4,
        PieceKind::Silver => 8,
        PieceKind::Bishop => 16,
        PieceKind::Rook => 17,
        PieceKind::Gold => 8,
        PieceKind::King => 40,
        PieceKind::ProPawn => 1,
        PieceKind::ProLance => 4,
        PieceKind::ProKnight => 4,
        PieceKind::ProSilver => 8,
        PieceKind::Horse => 20,
        PieceKind::Dragon => 22,
    }
}

/// The price of a kind in table D, used for the COM piece and the COM attacker on a disadvantage square.
pub fn naitou_piece_price_d(pk: PieceKind) -> (r: u8)
    ensures
        r == price_d(pk),
        pk.is_piece() ==> 1 <= r <= 40,
{
    match pk {
        PieceKind::NoPieceKind => 255,
        PieceKind::Pawn => 1,
        PieceKind::Lance => 4,
        PieceKind::Knight => 4,
        PieceKind::Silver => 8,
        PieceKind::Bishop => 16,
        PieceKind::Rook => 17,
        PieceKind::Gold => 8,
        PieceKind::King => 40,
        PieceKind::ProPawn => 1,
        PieceKind::ProLance => 4,
        PieceKind::ProKnight => 4,
        PieceKind::ProSilver => 8,
        PieceKind::Horse => 20,
        PieceKind::Dragon => 22,
    }
}

/// Whether the piece of `us` and kind `pk` on square `t` attacks `sq`:
/// a piece of the other side and the same kind, put on `sq`, would attack
/// `t`.
#[verifier::opaque]
pub open spec fn is_attacker(pos: Position, us: Side, sq: Square, pk: PieceKind, t: int) -> bool {
    0 <= t < 81 && pk.is_piece() && pos.board@[t] == Piece::of(us, pk) && attacks(
        Piece::of(us.opp(), pk),
        sq,
        pos.bb_occ,
        t,
    )
}

/// The rank of an attacker: first its price in table A, then the console's
/// number of its square.
pub open spec fn attacker_key(pk: PieceKind, t: int) -> int {
    256 * price_a(pk) + square_value(t)
}

/// Whether `r` is the kind of the attacker of least rank, or "no piece"
/// when nothing attacks.
pub open spec fn is_least_attacker(pos: Position, us: Side, sq: Square, r: PieceKind) -> bool {
    if exists|pk: PieceKind, t: int| is_attacker(pos, us, sq, pk, t) {
        exists|t: int| #[trigger]
            is_attacker(pos, us, sq, r, t) && forall|pk2: PieceKind, t2: int| #[trigger]
                is_attacker(pos, us, sq, pk2, t2) ==> attacker_key(r, t) <= attacker_key(pk2, t2)
    } else {
        r == PieceKind::NoPieceKind
    }
}

/// The kind of the piece of `us` that attacks `sq` and has the least price
/// in table A; among pieces of the same price, the one whose square has the
/// least console number.  "No piece" when nothing attacks.  Shadows do not
/// count.
pub fn naitou_attacker(pos: &Position, us: Side, sq: Square) -> (r: PieceKind)
    requires
        pos.bb_ok(),
        sq.on_board(),
    ensures
        is_least_attacker(*pos, us, sq, r),
        r == attacker_kind(*pos, us, sq),
{
    proof {
        reveal(is_attacker);
    }
    let them: Side = us.inv();
    let mut best: PieceKind = PieceKind::NoPieceKind;
    let mut best_key: u32 = 0;
    let ghost mut best_t: int = 0;
    let mut i: u32 = 1;
    while i <= 14
        invariant
            1 <= i <= 15,
            pos.bb_ok(),
            sq.on_board(),
            them == us.opp(),
            best == PieceKind::NoPieceKind ==> forall|pk: PieceKind, t: int|
                pk.value() < i ==> !is_attacker(*pos, us, sq, pk, t),
            best != PieceKind::NoPieceKind ==> is_attacker(*pos, us, sq, best, best_t) && best_key
                == attacker_key(best, best_t) && forall|pk: PieceKind, t: int|
                pk.value() < i && #[trigger] is_attacker(*pos, us, sq, pk, t) ==> best_key
                    <= attacker_key(pk, t),
        decreases 15 - i,
    {
        let pk: PieceKind = PieceKind::from_inner(i);
        let bb: Bitboard = effect(Piece::new(them, pk), sq, pos.bb_occupied()).and(
            pos.bb_piece(us, pk),
        );
        let sqs: Vec<Square> = bb.squares();
        let price: u32 = naitou_piece_price_a(pk) as u32;
        let mut j: usize = 0;
        proof {
            reveal(is_attacker);
        }
        while j < sqs.len()
            invariant
                j <= sqs@.len(),
                1 <= i <= 14,
                pk.value() == i,
                price == price_a(pk),
                price <= 40,
                pos.bb_ok(),
                sq.on_board(),
                them == us.opp(),
                forall|k: int| 0 <= k < sqs@.len() ==> (#[trigger] sqs@[k]).on_board() && bb.has(sqs@[k].0 as int),
                forall|t: int| bb.has(t) ==> sqs@.contains(Square(t as i32)),
                forall|t: int| bb.has(t) == is_attacker(*pos, us, sq, pk, t),
                best == PieceKind::NoPieceKind ==> (forall|pk2: PieceKind, t: int|
                    pk2.value() < i ==> !is_attacker(*pos, us, sq, pk2, t)) && (forall|k: int|
                    0 <= k < j ==> !is_attacker(*pos, us, sq, pk, sqs@[k].0 as int)),
                best != PieceKind::NoPieceKind ==> is_attacker(*pos, us, sq, best, best_t)
                    && best_key == attacker_key(best, best_t) && (forall|pk2: PieceKind, t: int|
                    pk2.value() < i && #[trigger] is_attacker(*pos, us, sq, pk2, t) ==> best_key
                        <= attacker_key(pk2, t)) && (forall|k: int|
                    0 <= k < j ==> best_key <= attacker_key(pk, (#[trigger] sqs@[k]).0 as int)),
            decreases sqs@.len() - j,
        {
            let t: Square = sqs[j];
            let key: u32 = 256 * price + naitou_square_to_value(t) as u32;
            if best.inner() == 0 || key < best_key {
                best = pk;
                best_key = key;
                proof {
                    best_t = t.0 as int;
                }
            }
            j += 1;
        }
        proof {
            assert forall|pk2: PieceKind, t: int|
                pk2.value() < i + 1 && #[trigger] is_attacker(*pos, us, sq, pk2, t) implies best
                != PieceKind::NoPieceKind && best_key <= attacker_key(pk2, t) by {
                if pk2.value() == i {
                    assert(pk2 == pk);
                    assert(bb.has(t));
                    let k = choose|k: int| 0 <= k < sqs@.len() && sqs@[k] == Square(t as i32);
                    assert(sqs@[k].0 == t);
                }
            }
        }
        i += 1;
    }
    proof {
        if best != PieceKind::NoPieceKind {
            assert(is_attacker(*pos, us, sq, best, best_t));
            assert forall|pk2: PieceKind, t2: int| #[trigger]
                is_attacker(*pos, us, sq, pk2, t2) implies attacker_key(best, best_t)
                <= attacker_key(pk2, t2) by {
                assert(pk2.value() < 15);
            }
        }
        assert(is_least_attacker(*pos, us, sq, best));
        lemma_attacker_kind(*pos, us, sq, best);
    }
    best
}

/// The kind of the attacker of least rank, or "no piece" when nothing
/// attacks.
pub open spec fn attacker_kind(pos: Position, us: Side, sq: Square) -> PieceKind {
    choose|r: PieceKind| is_least_attacker(pos, us, sq, r)
}

/// Where an attacker stands.
pub proof fn lemma_attacker_stands(pos: Position, us: Side, sq: Square, pk: PieceKind, t: int)
    requires
        is_attacker(pos, us, sq, pk, t),
    ensures
        0 <= t < 81,
        pk.spec_is_piece(),
        pos.board@[t] == Piece::of(us, pk),
{
    reveal(is_attacker);
}

/// Attackers of the same rank stand on the same square.
pub proof fn lemma_key_injective(pk1: PieceKind, t1: int, pk2: PieceKind, t2: int)
    requires
        0 <= t1 < 81,
        0 <= t2 < 81,
        attacker_key(pk1, t1) == attacker_key(pk2, t2),
    ensures
        t1 == t2,
{
    assert(12 <= square_value(t1) <= 108);
    assert(12 <= square_value(t2) <= 108);
    assert(square_value(t1) == square_value(t2));
}

/// Two attackers of least rank are of the same kind.
pub proof fn lemma_least_pair(
    pos: Position,
    us: Side,
    sq: Square,
    r1: PieceKind,
    t1: int,
    r2: PieceKind,
    t2: int,
)
    requires
        0 <= t1 < 81,
        0 <= t2 < 81,
        r1.spec_is_piece(),
        r2.spec_is_piece(),
        pos.board@[t1] == Piece::of(us, r1),
        pos.board@[t2] == Piece::of(us, r2),
        attacker_key(r1, t1) <= attacker_key(r2, t2),
        attacker_key(r2, t2) <= attacker_key(r1, t1),
    ensures
        r1 == r2,
{
    lemma_key_injective(r1, t1, r2, t2);
}

/// There is only one attacker of least rank.
pub proof fn lemma_least_attacker_unique(pos: Position, us: Side, sq: Square, r1: PieceKind, r2: PieceKind)
    requires
        is_least_attacker(pos, us, sq, r1),
        is_least_attacker(pos, us, sq, r2),
    ensures
        r1 == r2,
{
    if exists|pk: PieceKind, t: int| is_attacker(pos, us, sq, pk, t) {
        let t1 = choose|t: int| #[trigger]
            is_attacker(pos, us, sq, r1, t) && forall|pk2: PieceKind, t2: int| #[trigger]
                is_attacker(pos, us, sq, pk2, t2) ==> attacker_key(r1, t) <= attacker_key(pk2, t2);
        let t2 = choose|t: int| #[trigger]
            is_attacker(pos, us, sq, r2, t) && forall|pk2: PieceKind, t2: int| #[trigger]
                is_attacker(pos, us, sq, pk2, t2) ==> attacker_key(r2, t) <= attacker_key(pk2, t2);
        lemma_attacker_stands(pos, us, sq, r1, t1);
        lemma_attacker_stands(pos, us, sq, r2, t2);
        lemma_least_pair(pos, us, sq, r1, t1, r2, t2);
    }
}

/// The attacker of least rank is the one that `attacker_kind` names.
pub proof fn lemma_attacker_kind(pos: Position, us: Side, sq: Square, r: PieceKind)
    requires
        is_least_attacker(pos, us, sq, r),
    ensures
        r == attacker_kind(pos, us, sq),
{
    let a = attacker_kind(pos, us, sq);
    assert(is_least_attacker(pos, us, sq, a));
    lemma_least_attacker_unique(pos, us, sq, r, a);
}

/// The number that the console gives the origin of a drop of kind `pk`:
/// 201 for a pawn up to 207 for a rook, cheaper kinds first.
pub open spec fn drop_src_value(pk: PieceKind) -> int {
    match pk {
        PieceKind::Pawn => 201,
        PieceKind::Lance => 202,
        PieceKind::Knight => 203,
        PieceKind::Silver => 204,
        PieceKind::Gold => 205,
        PieceKind::Bishop => 206,
        PieceKind::Rook => 207,
        _ => 0,
    }
}

/// The number that the console gives the origin of a drop of kind `pk`,
/// which must be a kind that can be held in hand.
pub fn naitou_com_drop_src_value(pk: PieceKind) -> (r: u8)
    requires
        pk.is_hand(),
    ensures
        r == drop_src_value(pk),
        201 <= r <= 207,
{
    match pk {
        PieceKind::Pawn => 201,
        PieceKind::Lance => 202,
        PieceKind::Knight => 203,
        PieceKind::Silver => 204,
        PieceKind::Gold => 205,
        PieceKind::Bishop => 206,
        _ => 207,
    }
}

} // verus!
