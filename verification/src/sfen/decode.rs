//! Reading positions, moves and games from text.
//!
//! The text is read as it is written by the encoder, and a little more
//! freely: blanks at both ends are dropped, the words may be separated by
//! any run of blanks, the first word may be `position`, and the ply may be
//! any positive number.  Whether the position or a move makes sense on the
//! board is not looked at.

use vstd::prelude::*;
use crate::shogi::{Side, Square};
use crate::piece::{Piece, PieceKind};
use crate::moves::Move;
use crate::board::{Board, Hand, Hands};
use crate::sfen::text::{
    char_to_digit, char_to_kind, char_to_rank, chars_of, digit_value, kind_of_char, rank_value,
};

verus! {

/// Why a text could not be read.
#[derive(Clone, Copy, Debug, PartialEq, Eq, Structural, Hash)]
pub enum SfenError {
    /// There is no word where the position should start.
    EmptyPosition,
    /// The position starts neither with `startpos` nor with `sfen`.
    InvalidMagic,
    /// The word for the board is missing.
    BoardMissing,
    /// The board has fewer than 9 ranks.
    BoardRowCount,
    /// The board has more than 9 ranks.
    RedundantRow,
    /// A rank holds more than 9 squares.
    RowOverflow,
    /// A rank holds fewer than 9 squares.
    RowWidth,
    /// A `+` follows a `+`.
    DoublePlus,
    /// A digit follows a `+`.
    PlusBeforeDigit,
    /// A character of the board is no piece.
    InvalidPiece,
    /// A `+` stands before a piece that cannot promote.
    NotPromotable,
    /// A rank ends with a `+`.
    RemainingPromotion,
    /// The word for the side to move is missing.
    SideMissing,
    /// The side to move is neither `b` nor `w`.
    InvalidSide,
    /// The word for the hands is missing.
    HandsMissing,
    /// A count starts with `0`.
    LeadingZero,
    /// A count exceeds 255.
    CountTooLarge,
    /// A hand would hold more than fits its counter.
    HandOverflow,
    /// A character of the hands is no piece that can be held.
    InvalidHandPiece,
    /// The hands end with a count.
    RemainingCount,
    /// The word for the ply is missing.
    PlyMissing,
    /// The ply is no number that fits 32 bits.
    InvalidPly,
    /// The ply is 0.
    PlyNotPositive,
    /// A word follows the position.
    RedundantToken,
    /// The word after the position is not `moves`.
    MovesExpected,
    /// There is no move to read.
    EmptyMove,
    /// A word is no move.
    InvalidMove,
}

/// Whether `c` is a blank that separates words: space, tab, line feed, form
/// feed or carriage return.
pub open spec fn is_blank(c: char) -> bool {
    c == ' ' || c == '\t' || c == '\n' || c == '\x0C' || c == '\r'
}

/// Whether `c` is white space of any script.
pub open spec fn is_space(c: char) -> bool {
    let u = c as u32;
    (0x09 <= u <= 0x0D) || u == 0x20 || u == 0x85 || u == 0xA0 || u == 0x1680 || (0x2000 <= u
        <= 0x200A) || u == 0x2028 || u == 0x2029 || u == 0x202F || u == 0x205F || u == 0x3000
}

/// The first place from `i` on, below `hi`, that holds no white space; `hi`
/// when there is none.
pub open spec fn trim_start(s: Seq<char>, i: int, hi: int) -> int
    decreases hi - i,
{
    if i >= hi {
        hi
    } else if is_space(s[i]) {
        trim_start(s, i + 1, hi)
    } else {
        i
    }
}

/// The end of the text from `lo` on when the white space at its end is
/// dropped.
pub open spec fn trim_end(s: Seq<char>, lo: int, hi: int) -> int
    decreases hi - lo,
{
    if hi <= lo {
        lo
    } else if is_space(s[hi - 1]) {
        trim_end(s, lo, hi - 1)
    } else {
        hi
    }
}

/// The first place from `i` on, below `hi`, that holds no blank; `hi` when
/// there is none.
pub open spec fn skip_blank(s: Seq<char>, i: int, hi: int) -> int
    decreases hi - i,
{
    if i >= hi {
        hi
    } else if is_blank(s[i]) {
        skip_blank(s, i + 1, hi)
    } else {
        i
    }
}

/// The first place from `i` on, below `hi`, that holds a blank; `hi` when
/// there is none.
pub open spec fn word_end(s: Seq<char>, i: int, hi: int) -> int
    decreases hi - i,
{
    if i >= hi {
        hi
    } else if is_blank(s[i]) {
        i
    } else {
        word_end(s, i + 1, hi)
    }
}

/// The words of the text between `i` and `hi`, each as the places where it
/// starts and ends.
pub open spec fn words_from(s: Seq<char>, i: int, hi: int) -> Seq<(int, int)>
    decreases hi - i,
{
    let a = skip_blank(s, i, hi);
    if a >= hi || i >= hi {
        Seq::empty()
    } else {
        let b = word_end(s, a + 1, hi);
        if i < b <= hi {
            seq![(a, b)] + words_from(s, b, hi)
        } else {
            seq![(a, b)]
        }
    }
}

/// The words of the text, once the white space at both ends is dropped.
pub open spec fn words(s: Seq<char>) -> Seq<(int, int)> {
    let lo = trim_start(s, 0, s.len() as int);
    let hi = trim_end(s, lo, s.len() as int);
    words_from(s, lo, hi)
}

/// The text of the word `w`.
pub open spec fn word(s: Seq<char>, w: (int, int)) -> Seq<char> {
    s.subrange(w.0, w.1)
}

/// The file index that a digit from 1 to 9 stands for, or -1.
pub open spec fn file_value(c: char) -> int {
    if 1 <= digit_value(c) <= 9 {
        digit_value(c) - 1
    } else {
        -1
    }
}

/// The move that the characters between `a` and `b` stand for when they are
/// two squares and perhaps a `+`.
pub open spec fn walk_of(s: Seq<char>, a: int, b: int) -> Option<Move> {
    if (b - a == 4 || (b - a == 5 && s[a + 4] == '+')) && file_value(s[a]) >= 0 && rank_value(
        s[a + 1],
    ) >= 0 && file_value(s[a + 2]) >= 0 && rank_value(s[a + 3]) >= 0 {
        let src = 9 * file_value(s[a]) + rank_value(s[a + 1]);
        let dst = 9 * file_value(s[a + 2]) + rank_value(s[a + 3]);
        if src == dst {
            None
        } else {
            Some(Move((dst + 128 * src + (if b - a == 5 { 32768int } else { 0int })) as u32))
        }
    } else {
        None
    }
}

/// The move that the characters between `a` and `b` stand for when they are
/// the letter of a kind that can be held, a `*` and a square.
pub open spec fn drop_of(s: Seq<char>, a: int, b: int) -> Option<Move> {
    if b - a == 4 && s[a + 1] == '*' && file_value(s[a + 2]) >= 0 && rank_value(s[a + 3]) >= 0 {
        match kind_of_char(s[a]) {
            Some((Side::Hum, pk)) => if pk != PieceKind::King {
                Some(
                    Move(
                        (9 * file_value(s[a + 2]) + rank_value(s[a + 3]) + 128 * pk.value() + 16384) as u32,
                    ),
                )
            } else {
                None
            },
            _ => None,
        }
    } else {
        None
    }
}

/// The move that the characters between `a` and `b` stand for: a move or a
/// drop, after a `!` for a take-back move.
pub open spec fn move_of(s: Seq<char>, a: int, b: int) -> Result<Move, SfenError> {
    if a >= b {
        Err(SfenError::EmptyMove)
    } else {
        let matta = s[a] == '!';
        let a1 = if matta { a + 1 } else { a };
        let plain = match walk_of(s, a1, b) {
            Some(m) => Some(m),
            None => drop_of(s, a1, b),
        };
        match plain {
            Some(m) => Ok(if matta { Move((m.0 + 65536) as u32) } else { m }),
            None => Err(SfenError::InvalidMove),
        }
    }
}

/// The move that a text stands for, once the white space at both ends is
/// dropped.
pub open spec fn move_of_text(s: Seq<char>) -> Result<Move, SfenError> {
    let lo = trim_start(s, 0, s.len() as int);
    let hi = trim_end(s, lo, s.len() as int);
    move_of(s, lo, hi)
}

/// While a rank is read: the file index of the next square, whether a `+`
/// waits for its piece, and the board so far.
pub struct RowState {
    pub col: int,
    pub promo: bool,
    pub cells: Seq<Piece>,
}

/// The state after one more character of rank `row`.
pub open spec fn row_step(st: RowState, row: int, c: char) -> Result<RowState, SfenError> {
    if c == '+' {
        if st.promo {
            Err(SfenError::DoublePlus)
        } else if st.col < 0 {
            Err(SfenError::RowOverflow)
        } else {
            Ok(RowState { promo: true, ..st })
        }
    } else if 1 <= digit_value(c) <= 9 {
        if st.promo {
            Err(SfenError::PlusBeforeDigit)
        } else if st.col - digit_value(c) + 1 < 0 {
            Err(SfenError::RowOverflow)
        } else {
            Ok(RowState { col: st.col - digit_value(c), ..st })
        }
    } else {
        match kind_of_char(c) {
            None => Err(SfenError::InvalidPiece),
            Some((side, pk)) => if st.col < 0 {
                Err(SfenError::RowOverflow)
            } else if st.promo && !pk.spec_is_promotable() {
                Err(SfenError::NotPromotable)
            } else {
                Ok(
                    RowState {
                        col: st.col - 1,
                        promo: false,
                        cells: st.cells.update(
                            9 * st.col + row,
                            Piece::of(side, if st.promo { pk.promoted() } else { pk }),
                        ),
                    },
                )
            },
        }
    }
}

/// The state after the characters between `a` and `b` of rank `row`, read
/// from the state `st`.
pub open spec fn row_fold(s: Seq<char>, a: int, b: int, row: int, st: RowState) -> Result<
    RowState,
    SfenError,
>
    decreases b - a,
{
    if a >= b {
        Ok(st)
    } else {
        match row_step(st, row, s[a]) {
            Err(e) => Err(e),
            Ok(st2) => row_fold(s, a + 1, b, row, st2),
        }
    }
}

/// The board after rank `row`, written between `a` and `b`, has been read
/// onto `cells`.
pub open spec fn row_of(s: Seq<char>, a: int, b: int, row: int, cells: Seq<Piece>) -> Result<
    Seq<Piece>,
    SfenError,
> {
    match row_fold(s, a, b, row, RowState { col: 8, promo: false, cells }) {
        Err(e) => Err(e),
        Ok(st) => if st.promo {
            Err(SfenError::RemainingPromotion)
        } else if st.col != -1 {
            Err(SfenError::RowWidth)
        } else {
            Ok(st.cells)
        },
    }
}

/// The first place from `i` on, below `hi`, that holds a `/`; `hi` when
/// there is none.
pub open spec fn rank_end(s: Seq<char>, i: int, hi: int) -> int
    decreases hi - i,
{
    if i >= hi {
        hi
    } else if s[i] == '/' {
        i
    } else {
        rank_end(s, i + 1, hi)
    }
}

/// The board after the ranks from `row` on, written from `p` to `hi` with
/// `/` between them, have been read onto `cells`.  `p` beyond `hi` stands
/// for "no rank is left".
pub open spec fn board_from(s: Seq<char>, p: int, hi: int, row: int, cells: Seq<Piece>) -> Result<
    Seq<Piece>,
    SfenError,
>
    decreases 9 - row,
{
    if row >= 9 {
        if p > hi {
            Ok(cells)
        } else {
            Err(SfenError::RedundantRow)
        }
    } else if p > hi {
        Err(SfenError::BoardRowCount)
    } else {
        let e = rank_end(s, p, hi);
        match row_of(s, p, e, row, cells) {
            Err(err) => Err(err),
            Ok(cells2) => board_from(s, e + 1, hi, row + 1, cells2),
        }
    }
}

/// The board written between `a` and `b`.
pub open spec fn board_of(s: Seq<char>, a: int, b: int) -> Result<Seq<Piece>, SfenError> {
    board_from(s, a, b, 0, Seq::new(81, |i: int| Piece::NoPiece))
}

/// The side to move written between `a` and `b`.
pub open spec fn side_of(s: Seq<char>, a: int, b: int) -> Result<Side, SfenError> {
    if b - a == 1 && s[a] == 'b' {
        Ok(Side::Hum)
    } else if b - a == 1 && s[a] == 'w' {
        Ok(Side::Com)
    } else {
        Err(SfenError::InvalidSide)
    }
}

/// While the hands are read: the counts of HUM and of COM, and the count
/// that waits for its piece (0 for none).
pub struct HandsState {
    pub hum: Seq<u32>,
    pub com: Seq<u32>,
    pub count: int,
}

/// The state after one more character of the hands.
pub open spec fn hands_step(st: HandsState, c: char) -> Result<HandsState, SfenError> {
    if digit_value(c) >= 0 {
        if c == '0' && st.count == 0 {
            Err(SfenError::LeadingZero)
        } else if st.count * 10 + digit_value(c) > 255 {
            Err(SfenError::CountTooLarge)
        } else {
            Ok(HandsState { count: st.count * 10 + digit_value(c), ..st })
        }
    } else {
        match kind_of_char(c) {
            None => Err(SfenError::InvalidHandPiece),
            Some((side, pk)) => if pk == PieceKind::King {
                Err(SfenError::InvalidHandPiece)
            } else {
                let n = if st.count == 0 { 1 } else { st.count };
                let h = match side {
                    Side::Hum => st.hum,
                    Side::Com => st.com,
                };
                if h[pk.value()] + n > u32::MAX {
                    Err(SfenError::HandOverflow)
                } else {
                    let h2 = h.update(pk.value(), (h[pk.value()] + n) as u32);
                    Ok(
                        match side {
                            Side::Hum => HandsState { hum: h2, count: 0, ..st },
                            Side::Com => HandsState { com: h2, count: 0, ..st },
                        },
                    )
                }
            },
        }
    }
}

/// The state after the characters between `a` and `b` of the hands, read
/// from the state `st`.
pub open spec fn hands_fold(s: Seq<char>, a: int, b: int, st: HandsState) -> Result<
    HandsState,
    SfenError,
>
    decreases b - a,
{
    if a >= b {
        Ok(st)
    } else {
        match hands_step(st, s[a]) {
            Err(e) => Err(e),
            Ok(st2) => hands_fold(s, a + 1, b, st2),
        }
    }
}

/// The hands written between `a` and `b`: the counts of HUM and of COM.
pub open spec fn hands_of(s: Seq<char>, a: int, b: int) -> Result<(Seq<u32>, Seq<u32>), SfenError> {
    let none = Seq::new(8, |i: int| 0u32);
    if b - a == 1 && s[a] == '-' {
        Ok((none, none))
    } else {
        match hands_fold(s, a, b, HandsState { hum: none, com: none, count: 0 }) {
            Err(e) => Err(e),
            Ok(st) => if st.count != 0 {
                Err(SfenError::RemainingCount)
            } else {
                Ok((st.hum, st.com))
            },
        }
    }
}

/// The number that the digits between `a` and `b` stand for, read onto
/// `acc`; -1 when a character is no digit or the number exceeds 32 bits.
pub open spec fn number_fold(s: Seq<char>, a: int, b: int, acc: int) -> int
    decreases b - a,
{
    if a >= b {
        acc
    } else if digit_value(s[a]) < 0 || acc * 10 + digit_value(s[a]) > u32::MAX {
        -1
    } else {
        number_fold(s, a + 1, b, acc * 10 + digit_value(s[a]))
    }
}

/// Whether the characters between `a` and `b` are a ply: digits, perhaps
/// after a `+`, that stand for a positive number of 32 bits.
pub open spec fn ply_of(s: Seq<char>, a: int, b: int) -> Result<u32, SfenError> {
    let a1 = if a < b && s[a] == '+' { a + 1 } else { a };
    if a1 >= b {
        Err(SfenError::InvalidPly)
    } else {
        let n = number_fold(s, a1, b, 0);
        if n < 0 {
            Err(SfenError::InvalidPly)
        } else if n == 0 {
            Err(SfenError::PlyNotPositive)
        } else {
            Ok(n as u32)
        }
    }
}

/// What a position text gives: the side to move, the board, the counts in
/// the hands of HUM and of COM, and how many words were read.
pub struct PositionParts {
    pub side: Side,
    pub cells: Seq<Piece>,
    pub hum: Seq<u32>,
    pub com: Seq<u32>,
    pub used: int,
}

/// Whether the word `w` is the text `t`.
pub open spec fn word_is(s: Seq<char>, w: (int, int), t: Seq<char>) -> bool {
    word(s, w) =~= t
}

/// The position that the words `ws` start with.
pub open spec fn position_of(s: Seq<char>, ws: Seq<(int, int)>) -> Result<PositionParts, SfenError> {
    let k = if ws.len() > 0 && word_is(s, ws[0], seq!['p', 'o', 's', 'i', 't', 'i', 'o', 'n']) {
        1int
    } else {
        0int
    };
    if ws.len() <= k {
        Err(SfenError::EmptyPosition)
    } else if word_is(s, ws[k], seq!['s', 't', 'a', 'r', 't', 'p', 'o', 's']) {
        Ok(
            PositionParts {
                side: Side::Hum,
                cells: Board::startpos_spec(),
                hum: Seq::new(8, |i: int| 0u32),
                com: Seq::new(8, |i: int| 0u32),
                used: k + 1,
            },
        )
    } else if !word_is(s, ws[k], seq!['s', 'f', 'e', 'n']) {
        Err(SfenError::InvalidMagic)
    } else if ws.len() <= k + 1 {
        Err(SfenError::BoardMissing)
    } else {
        match board_of(s, ws[k + 1].0, ws[k + 1].1) {
            Err(e) => Err(e),
            Ok(cells) => if ws.len() <= k + 2 {
                Err(SfenError::SideMissing)
            } else {
                match side_of(s, ws[k + 2].0, ws[k + 2].1) {
                    Err(e) => Err(e),
                    Ok(side) => if ws.len() <= k + 3 {
                        Err(SfenError::HandsMissing)
                    } else {
                        match hands_of(s, ws[k + 3].0, ws[k + 3].1) {
                            Err(e) => Err(e),
                            Ok(hands) => if ws.len() <= k + 4 {
                                Err(SfenError::PlyMissing)
                            } else {
                                match ply_of(s, ws[k + 4].0, ws[k + 4].1) {
                                    Err(e) => Err(e),
                                    Ok(_) => Ok(
                                        PositionParts {
                                            side,
                                            cells,
                                            hum: hands.0,
                                            com: hands.1,
                                            used: k + 5,
                                        },
                                    ),
                                }
                            },
                        }
                    },
                }
            },
        }
    }
}

/// The position that a text stands for; nothing may follow it.
pub open spec fn position_of_text(s: Seq<char>) -> Result<PositionParts, SfenError> {
    let ws = words(s);
    match position_of(s, ws) {
        Err(e) => Err(e),
        Ok(p) => if ws.len() > p.used {
            Err(SfenError::RedundantToken)
        } else {
            Ok(p)
        },
    }
}

/// The moves that the words of `ws` from place `k` on stand for, read onto
/// `acc`.
pub open spec fn moves_from(s: Seq<char>, ws: Seq<(int, int)>, k: int, acc: Seq<Move>) -> Result<
    Seq<Move>,
    SfenError,
>
    decreases ws.len() - k,
{
    if k >= ws.len() {
        Ok(acc)
    } else {
        match move_of(s, ws[k].0, ws[k].1) {
            Err(e) => Err(e),
            Ok(m) => moves_from(s, ws, k + 1, acc.push(m)),
        }
    }
}

/// The game that a text stands for: a position, and after the word `moves`
/// the moves played from it.
pub open spec fn game_of_text(s: Seq<char>) -> Result<(PositionParts, Seq<Move>), SfenError> {
    let ws = words(s);
    match position_of(s, ws) {
        Err(e) => Err(e),
        Ok(p) => if ws.len() <= p.used {
            Ok((p, Seq::empty()))
        } else if !word_is(s, ws[p.used], seq!['m', 'o', 'v', 'e', 's']) {
            Err(SfenError::MovesExpected)
        } else {
            match moves_from(s, ws, p.used + 1, Seq::empty()) {
                Err(e) => Err(e),
                Ok(mvs) => Ok((p, mvs)),
            }
        },
    }
}

/// Whether `c` is a blank that separates words.
pub fn is_blank_char(c: char) -> (r: bool)
    ensures
        r == is_blank(c),
{
    c == ' ' || c == '\t' || c == '\n' || c == '\x0C' || c == '\r'
}

/// Whether `c` is white space of any script.
pub fn is_space_char(c: char) -> (r: bool)
    ensures
        r == is_space(c),
{
    let u: u32 = c as u32;
    (0x09 <= u && u <= 0x0D) || u == 0x20 || u == 0x85 || u == 0xA0 || u == 0x1680 || (0x2000 <= u
        && u <= 0x200A) || u == 0x2028 || u == 0x2029 || u == 0x202F || u == 0x205F || u == 0x3000
}

/// The part of the text that is left when the white space at both ends is
/// dropped: where it starts and where it ends.
pub fn trim_bounds(cs: &Vec<char>) -> (r: (usize, usize))
    ensures
        r.0 == trim_start(cs@, 0, cs@.len() as int),
        r.1 == trim_end(cs@, r.0 as int, cs@.len() as int),
        r.0 <= r.1 <= cs@.len(),
{
    let n: usize = cs.len();
    let mut lo: usize = 0;
    while lo < n && is_space_char(cs[lo])
        invariant
            lo <= n,
            n == cs@.len(),
            trim_start(cs@, 0, n as int) == trim_start(cs@, lo as int, n as int),
        decreases n - lo,
    {
        lo += 1;
    }
    let mut hi: usize = n;
    while hi > lo && is_space_char(cs[hi - 1])
        invariant
            lo <= hi <= n,
            n == cs@.len(),
            trim_end(cs@, lo as int, n as int) == trim_end(cs@, lo as int, hi as int),
        decreases hi - lo,
    {
        hi -= 1;
    }
    (lo, hi)
}

/// The first place from `i` on, below `hi`, that holds no blank.
pub fn skip_blanks(cs: &Vec<char>, i: usize, hi: usize) -> (r: usize)
    requires
        i <= hi <= cs@.len(),
    ensures
        r == skip_blank(cs@, i as int, hi as int),
        i <= r <= hi,
{
    let mut a: usize = i;
    while a < hi && is_blank_char(cs[a])
        invariant
            i <= a <= hi,
            hi <= cs@.len(),
            skip_blank(cs@, i as int, hi as int) == skip_blank(cs@, a as int, hi as int),
        decreases hi - a,
    {
        a += 1;
    }
    a
}

/// The first place from `i` on, below `hi`, that holds a blank.
pub fn find_word_end(cs: &Vec<char>, i: usize, hi: usize) -> (r: usize)
    requires
        i <= hi <= cs@.len(),
    ensures
        r == word_end(cs@, i as int, hi as int),
        i <= r <= hi,
{
    let mut b: usize = i;
    while b < hi && !is_blank_char(cs[b])
        invariant
            i <= b <= hi,
            hi <= cs@.len(),
            word_end(cs@, i as int, hi as int) == word_end(cs@, b as int, hi as int),
        decreases hi - b,
    {
        b += 1;
    }
    b
}

/// Whether `ws` holds the words `spec`, each within the text.
pub open spec fn words_match(ws: Seq<(usize, usize)>, spec: Seq<(int, int)>, len: int) -> bool {
    &&& ws.len() == spec.len()
    &&& forall|k: int|
        0 <= k < ws.len() ==> (#[trigger] ws[k]).0 == spec[k].0 && ws[k].1 == spec[k].1 && ws[k].0
            < ws[k].1 <= len
}

/// The words of the text.
pub fn split_words(cs: &Vec<char>) -> (r: Vec<(usize, usize)>)
    ensures
        words_match(r@, words(cs@), cs@.len() as int),
{
    let (lo, hi) = trim_bounds(cs);
    let mut out: Vec<(usize, usize)> = Vec::new();
    let ghost mut done: Seq<(int, int)> = Seq::empty();
    let mut i: usize = lo;
    let mut go: bool = true;
    assert(done + words_from(cs@, i as int, hi as int) =~= words_from(cs@, lo as int, hi as int));
    while go
        invariant
            lo <= i <= hi <= cs@.len(),
            words_match(out@, done, cs@.len() as int),
            go ==> done + words_from(cs@, i as int, hi as int) == words_from(
                cs@,
                lo as int,
                hi as int,
            ),
            !go ==> done == words_from(cs@, lo as int, hi as int),
        decreases (if go { 1int } else { 0int }), hi - i,
    {
        let ghost rest = words_from(cs@, i as int, hi as int);
        if i >= hi {
            go = false;
            assert(done + rest =~= done);
        } else {
            let a: usize = skip_blanks(cs, i, hi);
            if a >= hi {
                go = false;
                assert(done + rest =~= done);
            } else {
                let b: usize = find_word_end(cs, a + 1, hi);
                out.push((a, b));
                proof {
                    let tail = words_from(cs@, b as int, hi as int);
                    assert(rest =~= seq![(a as int, b as int)] + tail);
                    assert((done + seq![(a as int, b as int)]) + tail =~= done + rest);
                    done = done + seq![(a as int, b as int)];
                }
                i = b;
            }
        }
    }
    out
}

/// Whether the word `w` is the text `lit`.
pub fn word_equals(cs: &Vec<char>, w: (usize, usize), lit: &Vec<char>) -> (r: bool)
    requires
        w.0 <= w.1 <= cs@.len(),
    ensures
        r == word_is(cs@, (w.0 as int, w.1 as int), lit@),
{
    if w.1 - w.0 != lit.len() {
        return false;
    }
    let mut k: usize = 0;
    while k < lit.len()
        invariant
            k <= lit@.len(),
            w.0 <= w.1 <= cs@.len(),
            w.1 - w.0 == lit@.len(),
            forall|j: int| 0 <= j < k ==> cs@[w.0 + j] == lit@[j],
        decreases lit@.len() - k,
    {
        if cs[w.0 + k] != lit[k] {
            assert(word(cs@, (w.0 as int, w.1 as int))[k as int] != lit@[k as int]);
            return false;
        }
        k += 1;
    }
    assert(word(cs@, (w.0 as int, w.1 as int)) =~= lit@);
    true
}

/// The file index that a digit from 1 to 9 stands for.
pub fn sfen_decode_move_col(c: char) -> (r: Option<i32>)
    ensures
        match r {
            Some(v) => v == file_value(c) && 0 <= v <= 8,
            None => file_value(c) == -1,
        },
{
    match char_to_digit(c) {
        Some(d) => if d >= 1 {
            Some(d as i32 - 1)
        } else {
            None
        },
        None => None,
    }
}

/// The rank index that a letter from `a` to `i` stands for.
pub fn sfen_decode_move_row(c: char) -> (r: Option<i32>)
    ensures
        match r {
            Some(v) => v == rank_value(c) && 0 <= v <= 8,
            None => rank_value(c) == -1,
        },
{
    match char_to_rank(c) {
        Some(d) => Some(d as i32),
        None => None,
    }
}

/// The kind that a letter of a drop stands for.
pub fn sfen_decode_move_drop_piece_kind(c: char) -> (r: Option<PieceKind>)
    ensures
        r == (match kind_of_char(c) {
            Some((Side::Hum, pk)) => if pk != PieceKind::King {
                Some(pk)
            } else {
                None
            },
            _ => None,
        }),
        r.is_some() ==> r.unwrap().spec_is_hand(),
{
    match char_to_kind(c) {
        Some((Side::Hum, pk)) => if pk.inner() != 8 {
            Some(pk)
        } else {
            None
        },
        _ => None,
    }
}

/// The move that the characters between `a` and `b` stand for when they are
/// two squares and perhaps a `+`.
pub fn sfen_decode_move_walk(cs: &Vec<char>, a: usize, b: usize) -> (r: Option<Move>)
    requires
        a <= b <= cs@.len(),
    ensures
        r == walk_of(cs@, a as int, b as int),
        r.is_some() ==> r.unwrap().0 < 65536,
{
    let n: usize = b - a;
    if !(n == 4 || (n == 5 && cs[a + 4] == '+')) {
        return None;
    }
    let src_col: i32 = match sfen_decode_move_col(cs[a]) {
        Some(v) => v,
        None => {
            return None;
        },
    };
    let src_row: i32 = match sfen_decode_move_row(cs[a + 1]) {
        Some(v) => v,
        None => {
            return None;
        },
    };
    let dst_col: i32 = match sfen_decode_move_col(cs[a + 2]) {
        Some(v) => v,
        None => {
            return None;
        },
    };
    let dst_row: i32 = match sfen_decode_move_row(cs[a + 3]) {
        Some(v) => v,
        None => {
            return None;
        },
    };
    let src: Square = Square(9 * src_col + src_row);
    let dst: Square = Square(9 * dst_col + dst_row);
    if src.0 == dst.0 {
        return None;
    }
    if n == 5 {
        Some(Move::new_walk_promotion(src, dst))
    } else {
        Some(Move::new_walk(src, dst))
    }
}

/// The move that the characters between `a` and `b` stand for when they are
/// the letter of a kind, a `*` and a square.
pub fn sfen_decode_move_drop(cs: &Vec<char>, a: usize, b: usize) -> (r: Option<Move>)
    requires
        a <= b <= cs@.len(),
    ensures
        r == drop_of(cs@, a as int, b as int),
        r.is_some() ==> r.unwrap().0 < 65536,
{
    if b - a != 4 {
        return None;
    }
    if cs[a + 1] != '*' {
        return None;
    }
    let dst_col: i32 = match sfen_decode_move_col(cs[a + 2]) {
        Some(v) => v,
        None => {
            return None;
        },
    };
    let dst_row: i32 = match sfen_decode_move_row(cs[a + 3]) {
        Some(v) => v,
        None => {
            return None;
        },
    };
    match sfen_decode_move_drop_piece_kind(cs[a]) {
        Some(pk) => Some(Move::new_drop(pk, Square(9 * dst_col + dst_row))),
        None => None,
    }
}

/// The move that the characters between `a` and `b` stand for.
pub fn sfen_decode_move_impl(cs: &Vec<char>, a: usize, b: usize) -> (r: Result<Move, SfenError>)
    requires
        a <= b <= cs@.len(),
    ensures
        r == move_of(cs@, a as int, b as int),
{
    if a >= b {
        return Err(SfenError::EmptyMove);
    }
    let matta: bool = cs[a] == '!';
    let a1: usize = if matta { a + 1 } else { a };
    let plain: Option<Move> = match sfen_decode_move_walk(cs, a1, b) {
        Some(m) => Some(m),
        None => sfen_decode_move_drop(cs, a1, b),
    };
    match plain {
        Some(m) => Ok(if matta { Move::new_matta(m) } else { m }),
        None => Err(SfenError::InvalidMove),
    }
}

/// Reads a move.  White space at both ends is dropped.
pub fn sfen_decode_move(s: &str) -> (r: Result<Move, SfenError>)
    ensures
        r == move_of_text(s@),
{
    let cs: Vec<char> = chars_of(s);
    let (lo, hi) = trim_bounds(&cs);
    sfen_decode_move_impl(&cs, lo, hi)
}

/// Reads rank `row`, written between `a` and `b`, onto `board`.
pub fn sfen_decode_board_row(cs: &Vec<char>, a: usize, b: usize, row: i32, board: &mut Board) -> (r:
    Result<(), SfenError>)
    requires
        a <= b <= cs@.len(),
        0 <= row <= 8,
    ensures
        match r {
            Ok(_) => row_of(cs@, a as int, b as int, row as int, old(board)@) == Ok::<
                Seq<Piece>,
                SfenError,
            >(final(board)@),
            Err(e) => row_of(cs@, a as int, b as int, row as int, old(board)@) == Err::<
                Seq<Piece>,
                SfenError,
            >(e),
        },
{
    let ghost init = RowState { col: 8, promo: false, cells: board@ };
    let mut col: i32 = 8;
    let mut promo: bool = false;
    let mut i: usize = a;
    while i < b
        invariant
            a <= i <= b <= cs@.len(),
            0 <= row <= 8,
            -1 <= col <= 8,
            init == (RowState { col: 8, promo: false, cells: old(board)@ }),
            row_fold(cs@, a as int, b as int, row as int, init) == row_fold(
                cs@,
                i as int,
                b as int,
                row as int,
                RowState { col: col as int, promo, cells: board@ },
            ),
        decreases b - i,
    {
        let c: char = cs[i];
        let ghost st = RowState { col: col as int, promo, cells: board@ };
        proof {
            assert(row_fold(cs@, i as int, b as int, row as int, st) == (match row_step(
                st,
                row as int,
                cs@[i as int],
            ) {
                Err(e) => Err::<RowState, SfenError>(e),
                Ok(st2) => row_fold(cs@, i + 1, b as int, row as int, st2),
            }));
        }
        let digit: Option<u32> = char_to_digit(c);
        let is_digit: bool = match digit {
            Some(d) => d >= 1,
            None => false,
        };
        if c == '+' {
            if promo {
                return Err(SfenError::DoublePlus);
            }
            if col < 0 {
                return Err(SfenError::RowOverflow);
            }
            promo = true;
        } else if is_digit {
            let n: i32 = digit.unwrap() as i32;
            if promo {
                return Err(SfenError::PlusBeforeDigit);
            }
            if col - n + 1 < 0 {
                return Err(SfenError::RowOverflow);
            }
            col = col - n;
        } else {
            match char_to_kind(c) {
                None => {
                    return Err(SfenError::InvalidPiece);
                },
                Some((side, pk)) => {
                    if col < 0 {
                        return Err(SfenError::RowOverflow);
                    }
                    let mut kind: PieceKind = pk;
                    if promo {
                        if !pk.is_promotable() {
                            return Err(SfenError::NotPromotable);
                        }
                        kind = pk.to_promoted();
                        promo = false;
                    }
                    board.set(Square(9 * col + row), Piece::new(side, kind));
                    col = col - 1;
                },
            }
        }
        i += 1;
    }
    if promo {
        return Err(SfenError::RemainingPromotion);
    }
    if col != -1 {
        return Err(SfenError::RowWidth);
    }
    Ok(())
}

/// The first place from `i` on, below `hi`, that holds a `/`.
pub fn find_rank_end(cs: &Vec<char>, i: usize, hi: usize) -> (r: usize)
    requires
        i <= hi <= cs@.len(),
    ensures
        r == rank_end(cs@, i as int, hi as int),
        i <= r <= hi,
{
    let mut b: usize = i;
    while b < hi && cs[b] != '/'
        invariant
            i <= b <= hi,
            hi <= cs@.len(),
            rank_end(cs@, i as int, hi as int) == rank_end(cs@, b as int, hi as int),
        decreases hi - b,
    {
        b += 1;
    }
    b
}

/// Reads the board written between `a` and `b`.
pub fn sfen_decode_board(cs: &Vec<char>, a: usize, b: usize) -> (r: Result<Board, SfenError>)
    requires
        a <= b <= cs@.len(),
        cs@.len() < usize::MAX,
    ensures
        match r {
            Ok(board) => board_of(cs@, a as int, b as int) == Ok::<Seq<Piece>, SfenError>(board@),
            Err(e) => board_of(cs@, a as int, b as int) == Err::<Seq<Piece>, SfenError>(e),
        },
{
    let mut board: Board = Board::empty();
    assert(board@ =~= Seq::new(81, |i: int| Piece::NoPiece));
    let ghost init = board@;
    let mut p: usize = a;
    let mut row: i32 = 0;
    while row < 9
        invariant
            0 <= row <= 9,
            a <= p <= b + 1,
            b <= cs@.len(),
            cs@.len() < usize::MAX,
            init == Seq::new(81, |i: int| Piece::NoPiece),
            board_from(cs@, a as int, b as int, 0, init) == board_from(
                cs@,
                p as int,
                b as int,
                row as int,
                board@,
            ),
        decreases 9 - row,
    {
        proof {
            assert(board_from(cs@, p as int, b as int, row as int, board@) == (if p > b {
                Err::<Seq<Piece>, SfenError>(SfenError::BoardRowCount)
            } else {
                let e = rank_end(cs@, p as int, b as int);
                match row_of(cs@, p as int, e, row as int, board@) {
                    Err(err) => Err::<Seq<Piece>, SfenError>(err),
                    Ok(cells2) => board_from(cs@, e + 1, b as int, row + 1, cells2),
                }
            }));
        }
        if p > b {
            return Err(SfenError::BoardRowCount);
        }
        let e: usize = find_rank_end(cs, p, b);
        match sfen_decode_board_row(cs, p, e, row, &mut board) {
            Err(err) => {
                return Err(err);
            },
            Ok(_) => {},
        }
        p = e + 1;
        row += 1;
    }
    if p <= b {
        return Err(SfenError::RedundantRow);
    }
    Ok(board)
}

/// Reads the side to move written between `a` and `b`.
pub fn sfen_decode_side(cs: &Vec<char>, a: usize, b: usize) -> (r: Result<Side, SfenError>)
    requires
        a <= b <= cs@.len(),
    ensures
        r == side_of(cs@, a as int, b as int),
{
    if b - a == 1 && cs[a] == 'b' {
        Ok(Side::Hum)
    } else if b - a == 1 && cs[a] == 'w' {
        Ok(Side::Com)
    } else {
        Err(SfenError::InvalidSide)
    }
}

/// Reads the hands written between `a` and `b`.
pub fn sfen_decode_hands(cs: &Vec<char>, a: usize, b: usize) -> (r: Result<Hands, SfenError>)
    requires
        a <= b <= cs@.len(),
    ensures
        match r {
            Ok(hands) => hands_of(cs@, a as int, b as int) == Ok::<(Seq<u32>, Seq<u32>), SfenError>(
                (hands.of(Side::Hum)@, hands.of(Side::Com)@),
            ),
            Err(e) => hands_of(cs@, a as int, b as int) == Err::<(Seq<u32>, Seq<u32>), SfenError>(e),
        },
{
    let mut hum: Hand = Hand::empty();
    let mut com: Hand = Hand::empty();
    assert(hum@ =~= Seq::new(8, |i: int| 0u32));
    assert(com@ =~= Seq::new(8, |i: int| 0u32));
    if b - a == 1 && cs[a] == '-' {
        return Ok(Hands::new(hum, com));
    }
    let ghost init = HandsState { hum: hum@, com: com@, count: 0 };
    let mut count: u8 = 0;
    let mut i: usize = a;
    while i < b
        invariant
            a <= i <= b <= cs@.len(),
            init == (HandsState { hum: Seq::new(8, |i: int| 0u32), com: Seq::new(8, |i: int| 0u32), count: 0 }),
            !(b - a == 1 && cs@[a as int] == '-'),
            hands_fold(cs@, a as int, b as int, init) == hands_fold(
                cs@,
                i as int,
                b as int,
                HandsState { hum: hum@, com: com@, count: count as int },
            ),
        decreases b - i,
    {
        let c: char = cs[i];
        proof {
            let st = HandsState { hum: hum@, com: com@, count: count as int };
            assert(hands_fold(cs@, i as int, b as int, st) == (match hands_step(st, cs@[i as int]) {
                Err(e) => Err::<HandsState, SfenError>(e),
                Ok(st2) => hands_fold(cs@, i + 1, b as int, st2),
            }));
        }
        match char_to_digit(c) {
            Some(d) => {
                if d == 0 && count == 0 {
                    return Err(SfenError::LeadingZero);
                }
                let wide: u32 = count as u32 * 10 + d;
                if wide > 255 {
                    return Err(SfenError::CountTooLarge);
                }
                count = wide as u8;
            },
            None => {
                match char_to_kind(c) {
                    None => {
                        return Err(SfenError::InvalidHandPiece);
                    },
                    Some((side, pk)) => {
                        if pk.inner() == 8 {
                            return Err(SfenError::InvalidHandPiece);
                        }
                        let n: u32 = if count == 0 { 1 } else { count as u32 };
                        match side {
                            Side::Hum => {
                                let have: u32 = hum.get(pk);
                                if have > u32::MAX - n {
                                    return Err(SfenError::HandOverflow);
                                }
                                hum.set(pk, have + n);
                            },
                            Side::Com => {
                                let have: u32 = com.get(pk);
                                if have > u32::MAX - n {
                                    return Err(SfenError::HandOverflow);
                                }
                                com.set(pk, have + n);
                            },
                        }
                        count = 0;
                    },
                }
            },
        }
        i += 1;
    }
    if count != 0 {
        return Err(SfenError::RemainingCount);
    }
    Ok(Hands::new(hum, com))
}

/// Reads the ply written between `a` and `b`.
pub fn sfen_decode_ply(cs: &Vec<char>, a: usize, b: usize) -> (r: Result<u32, SfenError>)
    requires
        a <= b <= cs@.len(),
    ensures
        r == ply_of(cs@, a as int, b as int),
{
    let a1: usize = if a < b && cs[a] == '+' { a + 1 } else { a };
    if a1 >= b {
        return Err(SfenError::InvalidPly);
    }
    let mut acc: u32 = 0;
    let mut i: usize = a1;
    while i < b
        invariant
            a1 <= i <= b <= cs@.len(),
            a1 == (if a < b && cs@[a as int] == '+' { a + 1 } else { a as int }),
            a1 < b,
            number_fold(cs@, a1 as int, b as int, 0) == number_fold(cs@, i as int, b as int, acc as int),
        decreases b - i,
    {
        proof {
            assert(number_fold(cs@, i as int, b as int, acc as int) == (if digit_value(cs@[i as int])
                < 0 || acc * 10 + digit_value(cs@[i as int]) > u32::MAX {
                -1
            } else {
                number_fold(cs@, i + 1, b as int, acc * 10 + digit_value(cs@[i as int]))
            }));
        }
        match char_to_digit(cs[i]) {
            None => {
                return Err(SfenError::InvalidPly);
            },
            Some(d) => {
                let wide: u64 = acc as u64 * 10 + d as u64;
                if wide > 0xFFFF_FFFF {
                    return Err(SfenError::InvalidPly);
                }
                acc = wide as u32;
            },
        }
        i += 1;
    }
    if acc == 0 {
        return Err(SfenError::PlyNotPositive);
    }
    Ok(acc)
}

/// Whether what was read is what the text stands for.
pub open spec fn parts_match(p: PositionParts, side: Side, board: Board, hands: Hands, used: int) -> bool {
    &&& p.side == side
    &&& p.cells == board@
    &&& p.hum == hands.of(Side::Hum)@
    &&& p.com == hands.of(Side::Com)@
    &&& p.used == used
}

/// Reads the position that the words `ws` start with; gives also how many
/// words were read.
pub fn sfen_decode_position_from_iter(cs: &Vec<char>, ws: &Vec<(usize, usize)>) -> (r: Result<
    (Side, Board, Hands, usize),
    SfenError,
>)
    requires
        cs@.len() < usize::MAX,
        forall|k: int| 0 <= k < ws@.len() ==> (#[trigger] ws@[k]).0 < ws@[k].1 <= cs@.len(),
    ensures
        match r {
            Ok(x) => match position_of(cs@, Seq::new(ws@.len(), |k: int| (ws@[k].0 as int, ws@[k].1 as int))) {
                Ok(p) => parts_match(p, x.0, x.1, x.2, x.3 as int) && x.3 <= ws@.len(),
                Err(_) => false,
            },
            Err(e) => position_of(cs@, Seq::new(ws@.len(), |k: int| (ws@[k].0 as int, ws@[k].1 as int)))
                == Err::<PositionParts, SfenError>(e),
        },
{
    let ghost wsp = Seq::new(ws@.len(), |k: int| (ws@[k].0 as int, ws@[k].1 as int));
    let lit_position: Vec<char> = vec!['p', 'o', 's', 'i', 't', 'i', 'o', 'n'];
    let lit_startpos: Vec<char> = vec!['s', 't', 'a', 'r', 't', 'p', 'o', 's'];
    let lit_sfen: Vec<char> = vec!['s', 'f', 'e', 'n'];
    assert(lit_position@ =~= seq!['p', 'o', 's', 'i', 't', 'i', 'o', 'n']);
    assert(lit_startpos@ =~= seq!['s', 't', 'a', 'r', 't', 'p', 'o', 's']);
    assert(lit_sfen@ =~= seq!['s', 'f', 'e', 'n']);
    let k: usize = if ws.len() > 0 && word_equals(cs, ws[0], &lit_position) { 1 } else { 0 };
    if ws.len() <= k {
        return Err(SfenError::EmptyPosition);
    }
    assert(wsp[k as int] == (ws@[k as int].0 as int, ws@[k as int].1 as int));
    if word_equals(cs, ws[k], &lit_startpos) {
        let hands: Hands = Hands::new(Hand::empty(), Hand::empty());
        assert(hands.of(Side::Hum)@ =~= Seq::new(8, |i: int| 0u32));
        assert(hands.of(Side::Com)@ =~= Seq::new(8, |i: int| 0u32));
        return Ok((Side::Hum, Board::startpos(), hands, k + 1));
    }
    if !word_equals(cs, ws[k], &lit_sfen) {
        return Err(SfenError::InvalidMagic);
    }
    if ws.len() <= k + 1 {
        return Err(SfenError::BoardMissing);
    }
    assert(wsp[k + 1] == (ws@[k + 1].0 as int, ws@[k + 1].1 as int));
    let board: Board = match sfen_decode_board(cs, ws[k + 1].0, ws[k + 1].1) {
        Ok(x) => x,
        Err(e) => {
            return Err(e);
        },
    };
    if ws.len() <= k + 2 {
        return Err(SfenError::SideMissing);
    }
    assert(wsp[k + 2] == (ws@[k + 2].0 as int, ws@[k + 2].1 as int));
    let side: Side = match sfen_decode_side(cs, ws[k + 2].0, ws[k + 2].1) {
        Ok(x) => x,
        Err(e) => {
            return Err(e);
        },
    };
    if ws.len() <= k + 3 {
        return Err(SfenError::HandsMissing);
    }
    assert(wsp[k + 3] == (ws@[k + 3].0 as int, ws@[k + 3].1 as int));
    let hands: Hands = match sfen_decode_hands(cs, ws[k + 3].0, ws[k + 3].1) {
        Ok(x) => x,
        Err(e) => {
            return Err(e);
        },
    };
    if ws.len() <= k + 4 {
        return Err(SfenError::PlyMissing);
    }
    assert(wsp[k + 4] == (ws@[k + 4].0 as int, ws@[k + 4].1 as int));
    match sfen_decode_ply(cs, ws[k + 4].0, ws[k + 4].1) {
        Ok(_) => {},
        Err(e) => {
            return Err(e);
        },
    }
    Ok((side, board, hands, k + 5))
}

/// The words of a text, ready for reading.
pub fn words_of(s: &str) -> (r: (Vec<char>, Vec<(usize, usize)>))
    ensures
        r.0@ == s@,
        words_match(r.1@, words(s@), s@.len() as int),
        Seq::new(r.1@.len(), |k: int| (r.1@[k].0 as int, r.1@[k].1 as int)) == words(s@),
{
    let cs: Vec<char> = chars_of(s);
    let ws: Vec<(usize, usize)> = split_words(&cs);
    assert(Seq::new(ws@.len(), |k: int| (ws@[k].0 as int, ws@[k].1 as int)) =~= words(s@));
    (cs, ws)
}

/// Reads a position: the side to move, the board and the hands.  Nothing
/// may follow the position.
pub fn sfen_decode_position(s: &str) -> (r: Result<(Side, Board, Hands), SfenError>)
    requires
        s@.len() < usize::MAX,
    ensures
        match r {
            Ok(x) => match position_of_text(s@) {
                Ok(p) => p.side == x.0 && p.cells == x.1@ && p.hum == x.2.of(Side::Hum)@ && p.com
                    == x.2.of(Side::Com)@,
                Err(_) => false,
            },
            Err(e) => position_of_text(s@) == Err::<PositionParts, SfenError>(e),
        },
{
    let (cs, ws) = words_of(s);
    match sfen_decode_position_from_iter(&cs, &ws) {
        Err(e) => Err(e),
        Ok((side, board, hands, used)) => {
            if ws.len() > used {
                Err(SfenError::RedundantToken)
            } else {
                Ok((side, board, hands))
            }
        },
    }
}

/// Reads a game: the side to move, the board, the hands, and the moves
/// played from the position.
pub fn sfen_decode(s: &str) -> (r: Result<(Side, Board, Hands, Vec<Move>), SfenError>)
    requires
        s@.len() < usize::MAX,
    ensures
        match r {
            Ok(x) => match game_of_text(s@) {
                Ok(g) => g.0.side == x.0 && g.0.cells == x.1@ && g.0.hum == x.2.of(Side::Hum)@
                    && g.0.com == x.2.of(Side::Com)@ && g.1 == x.3@,
                Err(_) => false,
            },
            Err(e) => game_of_text(s@) == Err::<(PositionParts, Seq<Move>), SfenError>(e),
        },
{
    let (cs, ws) = words_of(s);
    let ghost wsp = words(s@);
    let (side, board, hands, used) = match sfen_decode_position_from_iter(&cs, &ws) {
        Err(e) => {
            return Err(e);
        },
        Ok(x) => x,
    };
    let mut mvs: Vec<Move> = Vec::new();
    if ws.len() <= used {
        assert(mvs@ =~= Seq::<Move>::empty());
        return Ok((side, board, hands, mvs));
    }
    let lit_moves: Vec<char> = vec!['m', 'o', 'v', 'e', 's'];
    assert(lit_moves@ =~= seq!['m', 'o', 'v', 'e', 's']);
    assert(wsp[used as int] == (ws@[used as int].0 as int, ws@[used as int].1 as int));
    if !word_equals(&cs, ws[used], &lit_moves) {
        return Err(SfenError::MovesExpected);
    }
    let mut k: usize = used + 1;
    assert(mvs@ =~= Seq::<Move>::empty());
    while k < ws.len()
        invariant
            used + 1 <= k <= ws@.len(),
            cs@ == s@,
            wsp == words(s@),
            match position_of(s@, wsp) {
                Ok(p) => parts_match(p, side, board, hands, used as int),
                Err(_) => false,
            },
            word_is(s@, wsp[used as int], seq!['m', 'o', 'v', 'e', 's']),
            words_match(ws@, wsp, s@.len() as int),
            moves_from(cs@, wsp, used + 1, Seq::empty()) == moves_from(cs@, wsp, k as int, mvs@),
        decreases ws@.len() - k,
    {
        proof {
            assert(wsp[k as int] == (ws@[k as int].0 as int, ws@[k as int].1 as int));
            assert(moves_from(cs@, wsp, k as int, mvs@) == (match move_of(
                cs@,
                wsp[k as int].0,
                wsp[k as int].1,
            ) {
                Err(e) => Err::<Seq<Move>, SfenError>(e),
                Ok(m) => moves_from(cs@, wsp, k + 1, mvs@.push(m)),
            }));
        }
        match sfen_decode_move_impl(&cs, ws[k].0, ws[k].1) {
            Err(e) => {
                return Err(e);
            },
            Ok(m) => {
                mvs.push(m);
            },
        }
        k += 1;
    }
    Ok((side, board, hands, mvs))
}

} // verus!
