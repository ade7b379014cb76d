//! What is written can be read again: a move, a position or a game that is
//! written as text and read back is the move, position or game that was
//! written.

use vstd::prelude::*;
use crate::shogi::{Side, Square};
use crate::piece::{Piece, PieceKind};
use crate::moves::Move;
use crate::board::{Board, Hand, Hands};
use crate::sfen::text::{decimal, digit_char, digit_value, kind_char, kind_of_char, rank_char, rank_value};
use crate::sfen::encode::{
    board_text, board_text_upto, game_text, hand_entry, hand_is_empty, hand_text, hands_text,
    move_text, moves_text_upto, piece_text, position_text, row_text, row_text_upto, run_text,
    side_text, square_text,
};
use crate::sfen::decode::{
    board_from, board_of, drop_of, file_value, game_of_text, hands_fold, hands_of, hands_step,
    is_blank, is_space, move_of, move_of_text, moves_from, number_fold, ply_of, position_of,
    position_of_text, rank_end, row_fold, row_of, row_step, side_of, skip_blank, trim_end,
    trim_start, walk_of, word, word_end, word_is, words, words_from, HandsState, PositionParts,
    RowState, SfenError,
};

verus! {

/// Whether `c` is a character of a word: no blank, and no white space of
/// any script.
pub open spec fn solid(c: char) -> bool {
    !is_blank(c) && !is_space(c)
}

/// A digit stands for its value, and is neither a letter of a rank or of a
/// kind nor a mark.
pub proof fn lemma_digit(d: int)
    requires
        0 <= d <= 9,
    ensures
        digit_value(digit_char(d)) == d,
        solid(digit_char(d)),
        kind_of_char(digit_char(d)).is_none(),
        rank_value(digit_char(d)) == -1,
        digit_char(d) != '/',
        digit_char(d) != '+',
        digit_char(d) != '-',
        digit_char(d) != '!',
{
}

/// The letter of a rank stands for the rank, and is no digit.
pub proof fn lemma_rank(r: int)
    requires
        0 <= r <= 8,
    ensures
        rank_value(rank_char(r)) == r,
        solid(rank_char(r)),
        digit_value(rank_char(r)) == -1,
{
}

/// The letter of a kind stands for the kind and the side, and is neither a
/// digit nor a mark.
pub proof fn lemma_kind(side: Side, pk: PieceKind)
    requires
        pk == PieceKind::King || pk.spec_is_hand(),
    ensures
        kind_of_char(kind_char(side, pk)) == Some((side, pk)),
        solid(kind_char(side, pk)),
        digit_value(kind_char(side, pk)) == -1,
        kind_char(side, pk) != '/',
        kind_char(side, pk) != '+',
        kind_char(side, pk) != '-',
        kind_char(side, pk) != '!',
        side == Side::Hum ==> rank_value(kind_char(side, pk)) == -1,
{
}

/// A text that starts and ends with a character of a word loses nothing
/// when the white space at its ends is dropped.
pub proof fn lemma_trim(s: Seq<char>)
    requires
        s.len() > 0,
        solid(s[0]),
        solid(s[s.len() - 1]),
    ensures
        trim_start(s, 0, s.len() as int) == 0,
        trim_end(s, 0, s.len() as int) == s.len(),
{
}

/// The text of a square is read as the square.
pub proof fn lemma_square_text(sq: Square)
    requires
        sq.on_board(),
    ensures
        square_text(sq).len() == 2,
        file_value(square_text(sq)[0]) == sq.0 / 9,
        rank_value(square_text(sq)[1]) == sq.0 % 9,
        solid(square_text(sq)[0]),
        solid(square_text(sq)[1]),
        square_text(sq)[0] != '!',
{
    lemma_digit(sq.c() + 1);
    lemma_rank(sq.r());
}

/// A valid move without bits beyond the take-back mark is the sum of its
/// fields.
pub proof fn lemma_move_sum(mv: Move)
    requires
        mv.0 < 131072,
    ensures
        mv.0 == mv.spec_dst().0 + 128 * mv.from_field() + (if mv.spec_is_drop() {
            16384int
        } else {
            0int
        }) + (if mv.spec_is_promotion() {
            32768int
        } else {
            0int
        }) + (if mv.spec_is_matta() {
            65536int
        } else {
            0int
        }),
{
}

/// Whether a move can be written and read again: it is valid and holds
/// no bit beyond the take-back mark.
pub open spec fn move_fits(mv: Move) -> bool {
    mv.spec_is_valid() && mv.0 < 131072
}

/// The text of a move is one word of 4 to 6 characters that is read as
/// the move.
pub proof fn lemma_move_text(mv: Move)
    requires
        move_fits(mv),
    ensures
        move_of(move_text(mv), 0, move_text(mv).len() as int) == Ok::<Move, SfenError>(mv),
        4 <= move_text(mv).len() <= 6,
        forall|i: int| 0 <= i < move_text(mv).len() ==> solid(#[trigger] move_text(mv)[i]),
{
    let t = move_text(mv);
    let n = t.len() as int;
    let dst = mv.spec_dst();
    lemma_move_sum(mv);
    lemma_square_text(dst);
    let k: int = if mv.spec_is_matta() { 1 } else { 0 };
    if mv.spec_is_drop() {
        let pk = mv.dropped();
        assert(pk.spec_is_hand() && pk.value() == mv.from_field());
        lemma_kind(Side::Hum, pk);
        assert(n == k + 4);
        assert(t[k] == kind_char(Side::Hum, pk));
        assert(t[k + 1] == '*');
        assert(t[k + 2] == square_text(dst)[0]);
        assert(t[k + 3] == square_text(dst)[1]);
        assert(walk_of(t, k, n).is_none());
        assert(drop_of(t, k, n) == Some(Move((mv.0 - 65536 * k) as u32)));
    } else {
        let src = mv.spec_src();
        lemma_square_text(src);
        let p: int = if mv.spec_is_promotion() { 1 } else { 0 };
        assert(n == k + 4 + p);
        assert(t[k] == square_text(src)[0]);
        assert(t[k + 1] == square_text(src)[1]);
        assert(t[k + 2] == square_text(dst)[0]);
        assert(t[k + 3] == square_text(dst)[1]);
        if p == 1 {
            assert(t[k + 4] == '+');
        }
        assert(walk_of(t, k, n) == Some(Move((mv.0 - 65536 * k) as u32)));
    }
    if k == 1 {
        assert(t[0] == '!');
    }
}

/// A move that is written and read back is the same move.
pub proof fn lemma_move_round_trip(mv: Move)
    requires
        move_fits(mv),
    ensures
        move_of_text(move_text(mv)) == Ok::<Move, SfenError>(mv),
{
    lemma_move_text(mv);
    lemma_trim(move_text(mv));
}

/// Reading a move depends on the characters of its word alone.
pub proof fn lemma_move_of_same(s: Seq<char>, a: int, b: int, t: Seq<char>)
    requires
        0 <= a <= b <= s.len(),
        s.subrange(a, b) == t,
    ensures
        move_of(s, a, b) == move_of(t, 0, t.len() as int),
{
    let n = b - a;
    assert(t.len() == n);
    assert forall|i: int| 0 <= i < n implies s[a + i] == t[i] by {
        assert(s.subrange(a, b)[i] == s[a + i]);
    }
    if n > 0 {
        assert(s[a + 0] == t[0]);
        let k: int = if s[a] == '!' { 1 } else { 0 };
        if n - k == 4 || n - k == 5 {
            assert(s[a + k] == t[k]);
            assert(s[a + k + 1] == t[k + 1]);
            assert(s[a + k + 2] == t[k + 2]);
            assert(s[a + k + 3] == t[k + 3]);
            if n - k == 5 {
                assert(s[a + k + 4] == t[k + 4]);
            }
        }
        assert(walk_of(s, a + k, b) == walk_of(t, k, n));
        assert(drop_of(s, a + k, b) == drop_of(t, k, n));
    }
}

/// Whether every character of `t` is a character of a word.
pub open spec fn solid_text(t: Seq<char>) -> bool {
    forall|i: int| 0 <= i < t.len() ==> solid(#[trigger] t[i])
}

/// Whether no character of `t` is a `/`.
pub open spec fn slash_free(t: Seq<char>) -> bool {
    forall|i: int| 0 <= i < t.len() ==> #[trigger] t[i] != '/'
}

/// Whether no character of `t` is a `-`.
pub open spec fn dash_free(t: Seq<char>) -> bool {
    forall|i: int| 0 <= i < t.len() ==> #[trigger] t[i] != '-'
}

/// What holds of the characters of two texts holds of the characters of
/// the two put together.
pub proof fn lemma_text_add(x: Seq<char>, y: Seq<char>)
    ensures
        solid_text(x) && solid_text(y) ==> solid_text(x + y),
        slash_free(x) && slash_free(y) ==> slash_free(x + y),
        dash_free(x) && dash_free(y) ==> dash_free(x + y),
{
    if dash_free(x) && dash_free(y) {
        assert forall|i: int| 0 <= i < (x + y).len() implies #[trigger] (x + y)[i] != '-' by {
            if i < x.len() {
                assert((x + y)[i] == x[i]);
            } else {
                assert((x + y)[i] == y[i - x.len()]);
            }
        }
    }
    if solid_text(x) && solid_text(y) {
        assert forall|i: int| 0 <= i < (x + y).len() implies solid(#[trigger] (x + y)[i]) by {
            if i < x.len() {
                assert((x + y)[i] == x[i]);
            } else {
                assert((x + y)[i] == y[i - x.len()]);
            }
        }
    }
    if slash_free(x) && slash_free(y) {
        assert forall|i: int| 0 <= i < (x + y).len() implies #[trigger] (x + y)[i] != '/' by {
            if i < x.len() {
                assert((x + y)[i] == x[i]);
            } else {
                assert((x + y)[i] == y[i - x.len()]);
            }
        }
    }
}

/// Reading a rank depends on the characters that are read alone.
pub proof fn lemma_row_fold_same(
    s: Seq<char>,
    a: int,
    t: Seq<char>,
    c: int,
    n: int,
    row: int,
    st: RowState,
)
    requires
        0 <= n,
        0 <= a,
        a + n <= s.len(),
        0 <= c,
        c + n <= t.len(),
        s.subrange(a, a + n) == t.subrange(c, c + n),
    ensures
        row_fold(s, a, a + n, row, st) == row_fold(t, c, c + n, row, st),
    decreases n,
{
    if n > 0 {
        assert(s[a] == s.subrange(a, a + n)[0]);
        assert(t[c] == t.subrange(c, c + n)[0]);
        match row_step(st, row, s[a]) {
            Err(e) => {},
            Ok(st2) => {
                assert(s.subrange(a + 1, a + n) =~= s.subrange(a, a + n).subrange(1, n));
                assert(t.subrange(c + 1, c + n) =~= t.subrange(c, c + n).subrange(1, n));
                lemma_row_fold_same(s, a + 1, t, c + 1, n - 1, row, st2);
            },
        }
    }
}

/// Reading a rank up to `b` is reading it up to `m` and going on from
/// there.
pub proof fn lemma_row_fold_split(s: Seq<char>, a: int, m: int, b: int, row: int, st: RowState)
    requires
        a <= m <= b,
    ensures
        row_fold(s, a, b, row, st) == (match row_fold(s, a, m, row, st) {
            Err(e) => Err(e),
            Ok(st2) => row_fold(s, m, b, row, st2),
        }),
    decreases m - a,
{
    if a < m {
        match row_step(st, row, s[a]) {
            Err(e) => {},
            Ok(st2) => {
                lemma_row_fold_split(s, a + 1, m, b, row, st2);
            },
        }
    }
}

/// Reading two texts put together is reading the first and going on with
/// the second.
pub proof fn lemma_row_fold_add(x: Seq<char>, y: Seq<char>, row: int, st: RowState)
    ensures
        row_fold(x + y, 0, (x + y).len() as int, row, st) == (match row_fold(
            x,
            0,
            x.len() as int,
            row,
            st,
        ) {
            Err(e) => Err(e),
            Ok(st2) => row_fold(y, 0, y.len() as int, row, st2),
        }),
{
    let t = x + y;
    let m = x.len() as int;
    lemma_row_fold_split(t, 0, m, t.len() as int, row, st);
    assert(t.subrange(0, m) =~= x.subrange(0, m));
    lemma_row_fold_same(t, 0, x, 0, m, row, st);
    match row_fold(x, 0, m, row, st) {
        Err(e) => {},
        Ok(st2) => {
            assert(t.subrange(m, m + y.len()) =~= y.subrange(0, y.len() as int));
            lemma_row_fold_same(t, m, y, 0, y.len() as int, row, st2);
        },
    }
}

/// The text of a run of empty squares and of a piece after it is read as
/// the run and the piece.
pub proof fn lemma_row_piece(st: RowState, row: int, run: int, pc: Piece)
    requires
        !st.promo,
        0 <= run <= 9,
        st.col - run >= 0,
        pc != Piece::NoPiece,
    ensures
        row_fold(
            run_text(run) + piece_text(pc),
            0,
            (run_text(run) + piece_text(pc)).len() as int,
            row,
            st,
        ) == Ok::<RowState, SfenError>(
            RowState {
                col: st.col - run - 1,
                promo: false,
                cells: st.cells.update(9 * (st.col - run) + row, pc),
            },
        ),
        solid_text(run_text(run) + piece_text(pc)),
        slash_free(run_text(run) + piece_text(pc)),
{
    let x = run_text(run);
    let y = piece_text(pc);
    let st1 = RowState { col: st.col - run, ..st };
    let pk = pc.spec_kind();
    let raw = if pk == PieceKind::King { pk } else { pk.raw() };
    let letter = kind_char(pc.spec_side(), raw);
    lemma_kind(pc.spec_side(), raw);
    lemma_row_fold_add(x, y, row, st);
    if run > 0 {
        lemma_digit(run);
        assert(row_step(st, row, x[0]) == Ok::<RowState, SfenError>(st1));
        assert(row_fold(x, 1, 1, row, st1) == Ok::<RowState, SfenError>(st1));
        assert(row_fold(x, 0, 1, row, st) == Ok::<RowState, SfenError>(st1));
    } else {
        assert(st1 == st);
        assert(row_fold(x, 0, 0, row, st) == Ok::<RowState, SfenError>(st1));
    }
    let end = RowState { col: st1.col - 1, promo: false, cells: st1.cells.update(9 * st1.col + row, pc) };
    if pk.spec_is_promoted() {
        let st2 = RowState { promo: true, ..st1 };
        assert(y[0] == '+' && y[1] == letter);
        assert(row_step(st1, row, y[0]) == Ok::<RowState, SfenError>(st2));
        assert(Piece::of(pc.spec_side(), raw.promoted()) == pc);
        assert(row_step(st2, row, y[1]) == Ok::<RowState, SfenError>(end));
        assert(row_fold(y, 2, 2, row, end) == Ok::<RowState, SfenError>(end));
        assert(row_fold(y, 1, 2, row, st2) == Ok::<RowState, SfenError>(end));
        assert(row_fold(y, 0, 2, row, st1) == Ok::<RowState, SfenError>(end));
    } else {
        assert(y[0] == letter);
        assert(Piece::of(pc.spec_side(), raw) == pc);
        assert(row_step(st1, row, y[0]) == Ok::<RowState, SfenError>(end));
        assert(row_fold(y, 1, 1, row, end) == Ok::<RowState, SfenError>(end));
        assert(row_fold(y, 0, 1, row, st1) == Ok::<RowState, SfenError>(end));
    }
    assert(solid_text(x));
    assert(solid_text(y));
    assert(slash_free(x));
    assert(slash_free(y));
    lemma_text_add(x, y);
}

/// The board `cells` with the pieces of `b` on the first `n` squares of
/// rank `row`, counted from file 9.
pub open spec fn row_cells(cells: Seq<Piece>, b: Seq<Piece>, row: int, n: int) -> Seq<Piece> {
    Seq::new(
        81,
        |i: int|
            if i % 9 == row && i / 9 > 8 - n && b[i] != Piece::NoPiece {
                b[i]
            } else {
                cells[i]
            },
    )
}

/// The text of the first squares of a rank is read as their pieces, with
/// the run of empty squares at the end still to come.
pub proof fn lemma_row_upto(b: Seq<Piece>, row: int, n: int, cells: Seq<Piece>)
    requires
        b.len() == 81,
        cells.len() == 81,
        0 <= row < 9,
        0 <= n <= 9,
    ensures
        0 <= row_text_upto(b, row, n).1 <= n,
        row_fold(
            row_text_upto(b, row, n).0,
            0,
            row_text_upto(b, row, n).0.len() as int,
            row,
            RowState { col: 8, promo: false, cells },
        ) == Ok::<RowState, SfenError>(
            RowState {
                col: 8 - n + row_text_upto(b, row, n).1,
                promo: false,
                cells: row_cells(cells, b, row, n),
            },
        ),
        solid_text(row_text_upto(b, row, n).0),
        slash_free(row_text_upto(b, row, n).0),
    decreases n,
{
    let init = RowState { col: 8, promo: false, cells };
    if n <= 0 {
        assert(row_cells(cells, b, row, 0) =~= cells);
    } else {
        lemma_row_upto(b, row, n - 1, cells);
        let rest = row_text_upto(b, row, n - 1);
        let sq = 9 * (9 - n) + row;
        let pc = b[sq];
        let mid = RowState { col: 9 - n + rest.1, promo: false, cells: row_cells(cells, b, row, n - 1) };
        if pc == Piece::NoPiece {
            assert(row_cells(cells, b, row, n) =~= row_cells(cells, b, row, n - 1));
        } else {
            let y = run_text(rest.1) + piece_text(pc);
            lemma_row_piece(mid, row, rest.1, pc);
            lemma_row_fold_add(rest.0, y, row, init);
            lemma_text_add(rest.0, y);
            assert(rest.0 + run_text(rest.1) + piece_text(pc) =~= rest.0 + y);
            assert(mid.cells.update(9 * (mid.col - rest.1) + row, pc) =~= row_cells(cells, b, row, n));
        }
    }
}

/// The text of a rank is read as the pieces of the rank.
pub proof fn lemma_row_round_trip(b: Seq<Piece>, row: int, cells: Seq<Piece>)
    requires
        b.len() == 81,
        cells.len() == 81,
        0 <= row < 9,
    ensures
        row_of(row_text(b, row), 0, row_text(b, row).len() as int, row, cells) == Ok::<
            Seq<Piece>,
            SfenError,
        >(row_cells(cells, b, row, 9)),
        solid_text(row_text(b, row)),
        slash_free(row_text(b, row)),
        row_text(b, row).len() > 0,
{
    let init = RowState { col: 8, promo: false, cells };
    let t = row_text_upto(b, row, 9);
    let x = run_text(t.1);
    lemma_row_upto(b, row, 9, cells);
    lemma_row_fold_add(t.0, x, row, init);
    lemma_text_add(t.0, x);
    let mid = RowState { col: t.1 - 1, promo: false, cells: row_cells(cells, b, row, 9) };
    let end = RowState { col: -1, ..mid };
    if t.1 > 0 {
        lemma_digit(t.1);
        assert(row_step(mid, row, x[0]) == Ok::<RowState, SfenError>(end));
        assert(row_fold(x, 1, 1, row, end) == Ok::<RowState, SfenError>(end));
        assert(row_fold(x, 0, 1, row, mid) == Ok::<RowState, SfenError>(end));
    } else {
        assert(row_fold(x, 0, 0, row, mid) == Ok::<RowState, SfenError>(end));
        lemma_row_text_nonempty(b, row, 9);
    }
    assert(solid_text(x));
    assert(slash_free(x));
}

/// The text of the first squares of a rank holds a character or ends with
/// a run of empty squares.
pub proof fn lemma_row_text_nonempty(b: Seq<Piece>, row: int, n: int)
    requires
        1 <= n <= 9,
    ensures
        row_text_upto(b, row, n).0.len() > 0 || row_text_upto(b, row, n).1 > 0,
    decreases n,
{
    if n > 1 {
        lemma_row_text_nonempty(b, row, n - 1);
    }
    let rest = row_text_upto(b, row, n - 1);
    if n == 1 {
        assert(row_text_upto(b, row, 0).1 == 0);
    }
    if b[9 * (9 - n) + row] != Piece::NoPiece {
        assert(piece_text(b[9 * (9 - n) + row]).len() > 0);
    } else {
        lemma_row_run(b, row, n - 1);
    }
}

/// The run of empty squares is never negative.
pub proof fn lemma_row_run(b: Seq<Piece>, row: int, n: int)
    requires
        0 <= n,
    ensures
        row_text_upto(b, row, n).1 >= 0,
    decreases n,
{
    if n > 0 {
        lemma_row_run(b, row, n - 1);
    }
}

/// The board that holds the pieces of `b` on the ranks before `row` and
/// nothing on the others.
pub open spec fn board_cells(b: Seq<Piece>, row: int) -> Seq<Piece> {
    Seq::new(81, |i: int| if i % 9 < row { b[i] } else { Piece::NoPiece })
}

/// The text of the first ranks of a board is a text of one word, and the
/// text of further ranks starts with it.
pub proof fn lemma_board_prefix(b: Seq<Piece>, k: int, n: int)
    requires
        b.len() == 81,
        1 <= k <= n <= 9,
    ensures
        solid_text(board_text_upto(b, n)),
        board_text_upto(b, k).len() <= board_text_upto(b, n).len(),
        board_text_upto(b, k).len() > 0,
        board_text_upto(b, n).subrange(0, board_text_upto(b, k).len() as int) == board_text_upto(b, k),
    decreases n,
{
    let none = Seq::new(81, |i: int| Piece::NoPiece);
    lemma_row_round_trip(b, n - 1, none);
    if n == 1 {
        assert(board_text_upto(b, 1).subrange(0, board_text_upto(b, 1).len() as int) =~= board_text_upto(
            b,
            1,
        ));
    } else {
        let x = board_text_upto(b, n - 1);
        let y = seq!['/'] + row_text(b, n - 1);
        assert(board_text_upto(b, n) =~= x + y);
        assert(solid_text(seq!['/']));
        lemma_text_add(seq!['/'], row_text(b, n - 1));
        if k == n {
            lemma_board_prefix(b, n - 1, n - 1);
            lemma_text_add(x, y);
            assert((x + y).subrange(0, (x + y).len() as int) =~= x + y);
        } else {
            lemma_board_prefix(b, k, n - 1);
            lemma_text_add(x, y);
            let m = board_text_upto(b, k).len() as int;
            assert((x + y).subrange(0, m) =~= x.subrange(0, m));
        }
    }
}

/// A rank ends at the first `/`, or where the board ends.
pub proof fn lemma_rank_end(s: Seq<char>, p: int, e: int, hi: int)
    requires
        0 <= p <= e <= hi <= s.len(),
        slash_free(s.subrange(p, e)),
        e == hi || s[e] == '/',
    ensures
        rank_end(s, p, hi) == e,
    decreases e - p,
{
    if p < e {
        assert(s[p] == s.subrange(p, e)[0]);
        assert(s.subrange(p + 1, e) =~= s.subrange(p, e).subrange(1, e - p));
        lemma_rank_end(s, p + 1, e, hi);
    }
}

/// The place in a text where the rank `row` of a board starts that is
/// written from place `a` on.
pub open spec fn rank_start(b: Seq<Piece>, a: int, row: int) -> int {
    if row <= 0 {
        a
    } else {
        a + board_text_upto(b, row).len() + 1
    }
}

/// The ranks from `row` on of a written board are read as the rest of the
/// board.
pub proof fn lemma_board_from(s: Seq<char>, a: int, hi: int, b: Seq<Piece>, row: int)
    requires
        b.len() == 81,
        0 <= a <= hi <= s.len(),
        s.subrange(a, hi) == board_text(b),
        0 <= row <= 9,
    ensures
        board_from(s, rank_start(b, a, row), hi, row, board_cells(b, row)) == Ok::<
            Seq<Piece>,
            SfenError,
        >(b),
    decreases 9 - row,
{
    let p = rank_start(b, a, row);
    let cells = board_cells(b, row);
    let all = board_text(b);
    assert(all.len() == hi - a);
    if row >= 9 {
        assert(cells =~= b);
    } else {
        let t = row_text(b, row);
        let e = p + t.len();
        lemma_board_prefix(b, row + 1, 9);
        lemma_row_round_trip(b, row, cells);
        let up = board_text_upto(b, row + 1);
        assert(e == a + up.len()) by {
            if row > 0 {
                assert(up =~= board_text_upto(b, row) + seq!['/'] + t);
            }
        }
        assert(s.subrange(p, e) =~= t) by {
            assert(all.subrange(0, up.len() as int) == up);
            assert forall|i: int| 0 <= i < t.len() implies s.subrange(p, e)[i] == t[i] by {
                assert(s[p + i] == s.subrange(a, hi)[p + i - a]);
                assert(all[p + i - a] == all.subrange(0, up.len() as int)[p + i - a]);
                if row > 0 {
                    assert(up =~= board_text_upto(b, row) + seq!['/'] + t);
                }
            }
        }
        if row + 1 < 9 {
            lemma_board_prefix(b, row + 2, 9);
            let up2 = board_text_upto(b, row + 2);
            assert(up2 =~= up + seq!['/'] + row_text(b, row + 1));
            assert(all[up.len() as int] == all.subrange(0, up2.len() as int)[up.len() as int]);
            assert(s[e] == s.subrange(a, hi)[e - a]);
            assert(s[e] == '/');
        } else {
            assert(up == all);
            assert(e == hi);
        }
        lemma_rank_end(s, p, e, hi);
        assert(t.subrange(0, t.len() as int) =~= t);
        lemma_row_fold_same(s, p, t, 0, t.len() as int, row, RowState { col: 8, promo: false, cells });
        assert(row_of(s, p, e, row, cells) == row_of(t, 0, t.len() as int, row, cells));
        assert(row_cells(cells, b, row, 9) =~= board_cells(b, row + 1));
        assert(rank_start(b, a, row + 1) == e + 1);
        lemma_board_from(s, a, hi, b, row + 1);
    }
}

/// A written board is read as the board.
pub proof fn lemma_board_round_trip(s: Seq<char>, a: int, hi: int, b: Seq<Piece>)
    requires
        b.len() == 81,
        0 <= a <= hi <= s.len(),
        s.subrange(a, hi) == board_text(b),
    ensures
        board_of(s, a, hi) == Ok::<Seq<Piece>, SfenError>(b),
{
    lemma_board_from(s, a, hi, b, 0);
    assert(board_cells(b, 0) =~= Seq::new(81, |i: int| Piece::NoPiece));
}

/// Reading hands depends on the characters that are read alone.
pub proof fn lemma_hands_fold_same(s: Seq<char>, a: int, t: Seq<char>, c: int, n: int, st: HandsState)
    requires
        0 <= n,
        0 <= a,
        a + n <= s.len(),
        0 <= c,
        c + n <= t.len(),
        s.subrange(a, a + n) == t.subrange(c, c + n),
    ensures
        hands_fold(s, a, a + n, st) == hands_fold(t, c, c + n, st),
    decreases n,
{
    if n > 0 {
        assert(s[a] == s.subrange(a, a + n)[0]);
        assert(t[c] == t.subrange(c, c + n)[0]);
        match hands_step(st, s[a]) {
            Err(e) => {},
            Ok(st2) => {
                assert(s.subrange(a + 1, a + n) =~= s.subrange(a, a + n).subrange(1, n));
                assert(t.subrange(c + 1, c + n) =~= t.subrange(c, c + n).subrange(1, n));
                lemma_hands_fold_same(s, a + 1, t, c + 1, n - 1, st2);
            },
        }
    }
}

/// Reading hands up to `b` is reading them up to `m` and going on from
/// there.
pub proof fn lemma_hands_fold_split(s: Seq<char>, a: int, m: int, b: int, st: HandsState)
    requires
        a <= m <= b,
    ensures
        hands_fold(s, a, b, st) == (match hands_fold(s, a, m, st) {
            Err(e) => Err(e),
            Ok(st2) => hands_fold(s, m, b, st2),
        }),
    decreases m - a,
{
    if a < m {
        match hands_step(st, s[a]) {
            Err(e) => {},
            Ok(st2) => {
                lemma_hands_fold_split(s, a + 1, m, b, st2);
            },
        }
    }
}

/// Reading two texts put together is reading the first and going on with
/// the second.
pub proof fn lemma_hands_fold_add(x: Seq<char>, y: Seq<char>, st: HandsState)
    ensures
        hands_fold(x + y, 0, (x + y).len() as int, st) == (match hands_fold(x, 0, x.len() as int, st) {
            Err(e) => Err(e),
            Ok(st2) => hands_fold(y, 0, y.len() as int, st2),
        }),
{
    let t = x + y;
    let m = x.len() as int;
    lemma_hands_fold_split(t, 0, m, t.len() as int, st);
    assert(t.subrange(0, m) =~= x.subrange(0, m));
    lemma_hands_fold_same(t, 0, x, 0, m, st);
    match hands_fold(x, 0, m, st) {
        Err(e) => {},
        Ok(st2) => {
            assert(t.subrange(m, m + y.len()) =~= y.subrange(0, y.len() as int));
            lemma_hands_fold_same(t, m, y, 0, y.len() as int, st2);
        },
    }
}

/// The digits of a count from 1 to 255 are read as the count.
pub proof fn lemma_count_round_trip(n: nat, st: HandsState)
    requires
        1 <= n <= 255,
        st.count == 0,
    ensures
        hands_fold(decimal(n), 0, decimal(n).len() as int, st) == Ok::<HandsState, SfenError>(
            HandsState { count: n as int, ..st },
        ),
        solid_text(decimal(n)),
        dash_free(decimal(n)),
        decimal(n).len() > 0,
    decreases n,
{
    let end = HandsState { count: n as int, ..st };
    if n < 10 {
        let x = decimal(n);
        lemma_digit(n as int);
        assert(hands_step(st, x[0]) == Ok::<HandsState, SfenError>(end));
        assert(hands_fold(x, 1, 1, end) == Ok::<HandsState, SfenError>(end));
        assert(hands_fold(x, 0, 1, st) == Ok::<HandsState, SfenError>(end));
    } else {
        let x = decimal(n / 10);
        let d = (n % 10) as int;
        let y = seq![digit_char(d)];
        let mid = HandsState { count: (n / 10) as int, ..st };
        lemma_count_round_trip(n / 10, st);
        lemma_digit(d);
        assert(decimal(n) =~= x + y);
        lemma_hands_fold_add(x, y, st);
        assert(hands_step(mid, y[0]) == Ok::<HandsState, SfenError>(end));
        assert(hands_fold(y, 1, 1, end) == Ok::<HandsState, SfenError>(end));
        assert(hands_fold(y, 0, 1, mid) == Ok::<HandsState, SfenError>(end));
        assert(solid_text(y));
        assert(dash_free(y));
        lemma_text_add(x, y);
    }
}

/// The state of reading hands once `side` holds `n` more pieces of kind
/// `pk`.
pub open spec fn held(st: HandsState, side: Side, pk: PieceKind, n: u32) -> HandsState {
    if n == 0 {
        st
    } else {
        match side {
            Side::Hum => HandsState { hum: st.hum.update(pk.value(), n), ..st },
            Side::Com => HandsState { com: st.com.update(pk.value(), n), ..st },
        }
    }
}

/// The text of the pieces of one kind in a hand is read as those pieces.
pub proof fn lemma_entry_round_trip(st: HandsState, side: Side, pk: PieceKind, n: u32)
    requires
        pk.spec_is_hand(),
        n <= 255,
        st.count == 0,
        st.hum.len() == 8,
        st.com.len() == 8,
        side == Side::Hum ==> st.hum[pk.value()] == 0,
        side == Side::Com ==> st.com[pk.value()] == 0,
    ensures
        hands_fold(hand_entry(side, pk, n), 0, hand_entry(side, pk, n).len() as int, st) == Ok::<
            HandsState,
            SfenError,
        >(held(st, side, pk, n)),
        solid_text(hand_entry(side, pk, n)),
        dash_free(hand_entry(side, pk, n)),
        n > 0 ==> hand_entry(side, pk, n).len() > 0,
{
    let t = hand_entry(side, pk, n);
    let end = held(st, side, pk, n);
    let y = seq![kind_char(side, pk)];
    lemma_kind(side, pk);
    if n >= 2 {
        let x = decimal(n as nat);
        let mid = HandsState { count: n as int, ..st };
        lemma_count_round_trip(n as nat, st);
        assert(t =~= x + y);
        lemma_hands_fold_add(x, y, st);
        assert(hands_step(mid, y[0]) == Ok::<HandsState, SfenError>(end));
        assert(hands_fold(y, 1, 1, end) == Ok::<HandsState, SfenError>(end));
        assert(hands_fold(y, 0, 1, mid) == Ok::<HandsState, SfenError>(end));
        assert(solid_text(y));
        assert(dash_free(y));
        lemma_text_add(x, y);
    } else if n == 1 {
        assert(t =~= y);
        assert(hands_step(st, y[0]) == Ok::<HandsState, SfenError>(end));
        assert(hands_fold(y, 1, 1, end) == Ok::<HandsState, SfenError>(end));
        assert(hands_fold(y, 0, 1, st) == Ok::<HandsState, SfenError>(end));
    } else {
        assert(hands_fold(t, 0, 0, st) == Ok::<HandsState, SfenError>(end));
    }
}

/// Whether a hand can be written and read again: no kind is held more
/// than 255 times, and the counter that stands for no kind is 0.
pub open spec fn hand_fits(h: Hand) -> bool {
    &&& h@[0] == 0
    &&& forall|i: int| 1 <= i < 8 ==> #[trigger] h@[i] <= 255
}

/// The kinds of a hand in the order in which they are written.
pub open spec fn written_kind(k: int) -> PieceKind {
    if k == 0 {
        PieceKind::Rook
    } else if k == 1 {
        PieceKind::Bishop
    } else if k == 2 {
        PieceKind::Gold
    } else if k == 3 {
        PieceKind::Silver
    } else if k == 4 {
        PieceKind::Knight
    } else if k == 5 {
        PieceKind::Lance
    } else {
        PieceKind::Pawn
    }
}

/// The place in the written order of the kind with value `v`.
pub open spec fn written_place(v: int) -> int {
    if v == 6 {
        0
    } else if v == 5 {
        1
    } else if v == 7 {
        2
    } else if v == 4 {
        3
    } else if v == 3 {
        4
    } else if v == 2 {
        5
    } else if v == 1 {
        6
    } else {
        7
    }
}

/// The text of the first `k` kinds of a hand.
pub open spec fn hand_text_upto(side: Side, h: Hand, k: int) -> Seq<char>
    decreases k,
{
    if k <= 0 {
        Seq::empty()
    } else {
        hand_text_upto(side, h, k - 1) + hand_entry(
            side,
            written_kind(k - 1),
            h@[written_kind(k - 1).value()],
        )
    }
}

/// The counts of the first `k` kinds of a hand, and 0 for the others.
pub open spec fn hand_upto(h: Hand, k: int) -> Seq<u32> {
    Seq::new(8, |i: int| if written_place(i) < k { h@[i] } else { 0u32 })
}

/// The state of reading hands once `side` holds the counts `h`.
pub open spec fn holding(st: HandsState, side: Side, h: Seq<u32>) -> HandsState {
    match side {
        Side::Hum => HandsState { hum: h, ..st },
        Side::Com => HandsState { com: h, ..st },
    }
}

/// The text of the first `k` kinds of a hand is read as those pieces.
pub proof fn lemma_hand_upto(st: HandsState, side: Side, h: Hand, k: int)
    requires
        hand_fits(h),
        0 <= k <= 7,
        st.count == 0,
        st.hum.len() == 8,
        st.com.len() == 8,
        side == Side::Hum ==> forall|i: int| 0 <= i < 8 ==> st.hum[i] == 0,
        side == Side::Com ==> forall|i: int| 0 <= i < 8 ==> st.com[i] == 0,
    ensures
        hands_fold(hand_text_upto(side, h, k), 0, hand_text_upto(side, h, k).len() as int, st) == Ok::<
            HandsState,
            SfenError,
        >(holding(st, side, hand_upto(h, k))),
        solid_text(hand_text_upto(side, h, k)),
        dash_free(hand_text_upto(side, h, k)),
        forall|i: int| 1 <= i < 8 && written_place(i) < k && h@[i] > 0 ==> hand_text_upto(side, h, k).len() > 0,
    decreases k,
{
    if k <= 0 {
        match side {
            Side::Hum => {
                assert(hand_upto(h, 0) =~= st.hum);
            },
            Side::Com => {
                assert(hand_upto(h, 0) =~= st.com);
            },
        }
    } else {
        let pk = written_kind(k - 1);
        let v = pk.value();
        assert(written_place(v) == k - 1);
        assert(h@[v] <= 255);
        let x = hand_text_upto(side, h, k - 1);
        let y = hand_entry(side, pk, h@[v]);
        let mid = holding(st, side, hand_upto(h, k - 1));
        lemma_hand_upto(st, side, h, k - 1);
        lemma_entry_round_trip(mid, side, pk, h@[v]);
        lemma_hands_fold_add(x, y, st);
        lemma_text_add(x, y);
        match side {
            Side::Hum => {
                assert(held(mid, side, pk, h@[v]).hum =~= hand_upto(h, k));
            },
            Side::Com => {
                assert(held(mid, side, pk, h@[v]).com =~= hand_upto(h, k));
            },
        }
        assert(held(mid, side, pk, h@[v]) == holding(st, side, hand_upto(h, k)));
    }
}

/// The text of a hand is read as the hand.
pub proof fn lemma_hand_round_trip(st: HandsState, side: Side, h: Hand)
    requires
        hand_fits(h),
        st.count == 0,
        st.hum.len() == 8,
        st.com.len() == 8,
        side == Side::Hum ==> forall|i: int| 0 <= i < 8 ==> st.hum[i] == 0,
        side == Side::Com ==> forall|i: int| 0 <= i < 8 ==> st.com[i] == 0,
    ensures
        hands_fold(hand_text(side, h), 0, hand_text(side, h).len() as int, st) == Ok::<
            HandsState,
            SfenError,
        >(holding(st, side, h@)),
        solid_text(hand_text(side, h)),
        dash_free(hand_text(side, h)),
        !hand_is_empty(h) ==> hand_text(side, h).len() > 0,
        hand_is_empty(h) ==> hand_text(side, h).len() == 0,
{
    lemma_hand_upto(st, side, h, 7);
    assert(hand_text(side, h) =~= hand_text_upto(side, h, 7)) by {
        reveal_with_fuel(hand_text_upto, 8);
    }
    assert(hand_upto(h, 7) =~= h@);
    if !hand_is_empty(h) {
        let i = choose|i: int| 0 <= i < 8 && h@[i] != 0;
        assert(1 <= i < 8 && written_place(i) < 7 && h@[i] > 0);
    }
}

/// Written hands are read as the hands, and are one word.
pub proof fn lemma_hands_round_trip(s: Seq<char>, a: int, hi: int, hands: Hands)
    requires
        hand_fits(hands.of(Side::Hum)),
        hand_fits(hands.of(Side::Com)),
        0 <= a <= hi <= s.len(),
        s.subrange(a, hi) == hands_text(hands),
    ensures
        hands_of(s, a, hi) == Ok::<(Seq<u32>, Seq<u32>), SfenError>(
            (hands.of(Side::Hum)@, hands.of(Side::Com)@),
        ),
        hands_text(hands).len() > 0,
        solid_text(hands_text(hands)),
{
    let hh = hands.of(Side::Hum);
    let hc = hands.of(Side::Com);
    let none = Seq::new(8, |i: int| 0u32);
    let t = hands_text(hands);
    assert(t.len() == hi - a);
    if hi > a {
        assert(s[a] == s.subrange(a, hi)[0]);
    }
    if hand_is_empty(hh) && hand_is_empty(hc) {
        assert(hh@ =~= none);
        assert(hc@ =~= none);
    } else {
        let st = HandsState { hum: none, com: none, count: 0 };
        let x = hand_text(Side::Hum, hh);
        let y = hand_text(Side::Com, hc);
        let mid = holding(st, Side::Hum, hh@);
        lemma_hand_round_trip(st, Side::Hum, hh);
        lemma_hand_round_trip(mid, Side::Com, hc);
        lemma_hands_fold_add(x, y, st);
        lemma_text_add(x, y);
        assert(t.subrange(0, t.len() as int) =~= t);
        lemma_hands_fold_same(s, a, t, 0, hi - a, st);
        assert(t.len() > 0);
        assert(t[0] != '-');
    }
}

/// A word ends at the first blank, or where the text ends.
pub proof fn lemma_word_end(s: Seq<char>, p: int, e: int, hi: int)
    requires
        0 <= p <= e <= hi <= s.len(),
        solid_text(s.subrange(p, e)),
        e == hi || is_blank(s[e]),
    ensures
        word_end(s, p, hi) == e,
    decreases e - p,
{
    if p < e {
        assert(s[p] == s.subrange(p, e)[0]);
        assert(solid(s.subrange(p, e)[0]));
        assert(s.subrange(p + 1, e) =~= s.subrange(p, e).subrange(1, e - p));
        lemma_word_end(s, p + 1, e, hi);
    }
}

/// Where a word stands at `i`, or after one blank at `i`, it is the first
/// of the words from `i` on.
pub proof fn lemma_word_step(s: Seq<char>, i: int, a: int, b: int, hi: int)
    requires
        0 <= i <= a < b <= hi <= s.len(),
        a == i || (a == i + 1 && is_blank(s[i])),
        solid_text(s.subrange(a, b)),
        b == hi || is_blank(s[b]),
    ensures
        words_from(s, i, hi) == seq![(a, b)] + words_from(s, b, hi),
{
    assert(s[a] == s.subrange(a, b)[0]);
    assert(solid(s.subrange(a, b)[0]));
    assert(skip_blank(s, a, hi) == a);
    assert(skip_blank(s, i, hi) == a);
    assert(s.subrange(a + 1, b) =~= s.subrange(a, b).subrange(1, b - a));
    lemma_word_end(s, a + 1, b, hi);
}

/// Whether a position is written as `startpos`.
pub open spec fn is_even_start(side: Side, b: Seq<Piece>, hands: Hands) -> bool {
    side == Side::Hum && b =~= Board::startpos_spec() && hand_is_empty(hands.of(Side::Hum))
        && hand_is_empty(hands.of(Side::Com))
}

/// The places of the words of a written position.
pub open spec fn position_words(side: Side, b: Seq<Piece>, hands: Hands) -> Seq<(int, int)> {
    if is_even_start(side, b, hands) {
        seq![(0int, 8int)]
    } else {
        let n = board_text(b).len() as int;
        let h = hands_text(hands).len() as int;
        seq![(0int, 4int), (5int, 5 + n), (6 + n, 7 + n), (8 + n, 8 + n + h), (9 + n + h, 10 + n + h)]
    }
}

/// What a text that starts with a written position holds at the places of
/// its words.
pub proof fn lemma_position_parts(s: Seq<char>, side: Side, b: Seq<Piece>, hands: Hands)
    requires
        b.len() == 81,
        !is_even_start(side, b, hands),
        position_text(side, b, hands).len() <= s.len(),
        s.subrange(0, position_text(side, b, hands).len() as int) == position_text(side, b, hands),
    ensures
        ({
            let n = board_text(b).len() as int;
            let h = hands_text(hands).len() as int;
            &&& position_text(side, b, hands).len() == 10 + n + h
            &&& s.subrange(0, 4) == seq!['s', 'f', 'e', 'n']
            &&& s[4] == ' '
            &&& s.subrange(5, 5 + n) == board_text(b)
            &&& s[5 + n] == ' '
            &&& s.subrange(6 + n, 7 + n) == side_text(side)
            &&& s[7 + n] == ' '
            &&& s.subrange(8 + n, 8 + n + h) == hands_text(hands)
            &&& s[8 + n + h] == ' '
            &&& s.subrange(9 + n + h, 10 + n + h) == seq!['1']
        }),
{
    let t = position_text(side, b, hands);
    let n = board_text(b).len() as int;
    let h = hands_text(hands).len() as int;
    let x1 = seq!['s', 'f', 'e', 'n', ' '];
    let x2 = x1 + board_text(b);
    let x3 = x2 + seq![' '];
    let x4 = x3 + side_text(side);
    let x5 = x4 + seq![' '];
    let x6 = x5 + hands_text(hands);
    let x7 = x6 + seq![' ', '1'];
    assert(t == x7);
    assert(side_text(side).len() == 1);
    assert(t.len() == 10 + n + h);
    assert forall|i: int| 0 <= i < t.len() implies s[i] == t[i] by {
        assert(s.subrange(0, t.len() as int)[i] == s[i]);
    }
    assert(s.subrange(0, 4) =~= seq!['s', 'f', 'e', 'n']);
    assert(s.subrange(5, 5 + n) =~= board_text(b));
    assert(s.subrange(6 + n, 7 + n) =~= side_text(side));
    assert(s.subrange(8 + n, 8 + n + h) =~= hands_text(hands));
    assert(s.subrange(9 + n + h, 10 + n + h) =~= seq!['1']);
    assert(s[4] == t[4]);
    assert(s[5 + n] == t[5 + n]);
    assert(s[7 + n] == t[7 + n]);
    assert(s[8 + n + h] == t[8 + n + h]);
}

/// The text of a board is one word.
pub proof fn lemma_board_text(b: Seq<Piece>)
    requires
        b.len() == 81,
    ensures
        board_text(b).len() > 0,
        solid_text(board_text(b)),
{
    lemma_board_prefix(b, 9, 9);
}

/// The words of a text that starts with a written position, and goes on
/// with a blank if it goes on, start with the words of the position.
pub proof fn lemma_position_words(s: Seq<char>, hi: int, side: Side, b: Seq<Piece>, hands: Hands)
    requires
        b.len() == 81,
        hand_fits(hands.of(Side::Hum)),
        hand_fits(hands.of(Side::Com)),
        position_text(side, b, hands).len() <= hi <= s.len(),
        s.subrange(0, position_text(side, b, hands).len() as int) == position_text(side, b, hands),
        position_text(side, b, hands).len() == hi || is_blank(s[position_text(side, b, hands).len() as int]),
    ensures
        words_from(s, 0, hi) == position_words(side, b, hands) + words_from(
            s,
            position_text(side, b, hands).len() as int,
            hi,
        ),
        solid(s[0]),
        position_text(side, b, hands).len() > 0,
        solid(position_text(side, b, hands)[position_text(side, b, hands).len() - 1]),
{
    let t = position_text(side, b, hands);
    if is_even_start(side, b, hands) {
        assert(s.subrange(0, 8)[0] == s[0]);
        assert(solid_text(t));
        lemma_word_step(s, 0, 0, 8, hi);
    } else {
        let n = board_text(b).len() as int;
        let h = hands_text(hands).len() as int;
        lemma_position_parts(s, side, b, hands);
        lemma_board_text(b);
        assert(hands_text(hands).subrange(0, h) =~= hands_text(hands));
        lemma_hands_round_trip(hands_text(hands), 0, h, hands);
        assert(solid_text(seq!['s', 'f', 'e', 'n']));
        assert(solid_text(side_text(side)));
        assert(solid_text(seq!['1']));
        assert(s.subrange(0, 4)[0] == s[0]);
        lemma_word_step(s, 0, 0, 4, hi);
        lemma_word_step(s, 4, 5, 5 + n, hi);
        lemma_word_step(s, 5 + n, 6 + n, 7 + n, hi);
        lemma_word_step(s, 7 + n, 8 + n, 8 + n + h, hi);
        lemma_word_step(s, 8 + n + h, 9 + n + h, 10 + n + h, hi);
        assert(words_from(s, 0, hi) =~= position_words(side, b, hands) + words_from(s, 10 + n + h, hi));
        assert(t[t.len() - 1] == s.subrange(9 + n + h, 10 + n + h)[0]) by {
            assert(s.subrange(0, t.len() as int)[t.len() - 1] == s[t.len() - 1]);
        }
    }
}

/// What a written position is read as.
pub open spec fn position_parts(side: Side, b: Seq<Piece>, hands: Hands) -> PositionParts {
    PositionParts {
        side,
        cells: b,
        hum: hands.of(Side::Hum)@,
        com: hands.of(Side::Com)@,
        used: position_words(side, b, hands).len() as int,
    }
}

/// The words of a written position are read as the position.
pub proof fn lemma_position_of(
    s: Seq<char>,
    ws: Seq<(int, int)>,
    side: Side,
    b: Seq<Piece>,
    hands: Hands,
)
    requires
        b.len() == 81,
        hand_fits(hands.of(Side::Hum)),
        hand_fits(hands.of(Side::Com)),
        position_text(side, b, hands).len() <= s.len(),
        s.subrange(0, position_text(side, b, hands).len() as int) == position_text(side, b, hands),
        position_words(side, b, hands).len() <= ws.len(),
        ws.subrange(0, position_words(side, b, hands).len() as int) == position_words(side, b, hands),
    ensures
        position_of(s, ws) == Ok::<PositionParts, SfenError>(position_parts(side, b, hands)),
{
    let t = position_text(side, b, hands);
    let pw = position_words(side, b, hands);
    assert forall|i: int| 0 <= i < pw.len() implies ws[i] == pw[i] by {
        assert(ws.subrange(0, pw.len() as int)[i] == ws[i]);
    }
    let none = Seq::new(8, |i: int| 0u32);
    if is_even_start(side, b, hands) {
        assert(ws[0] == (0int, 8int));
        assert(word(s, ws[0]) == t);
        assert(t[0] == 's');
        assert(!word_is(s, ws[0], seq!['p', 'o', 's', 'i', 't', 'i', 'o', 'n'])) by {
            assert(seq!['p', 'o', 's', 'i', 't', 'i', 'o', 'n'][0] == 'p');
        }
        assert(hands.of(Side::Hum)@ =~= none);
        assert(hands.of(Side::Com)@ =~= none);
    } else {
        let n = board_text(b).len() as int;
        let h = hands_text(hands).len() as int;
        lemma_position_parts(s, side, b, hands);
        assert(ws[0] == (0int, 4int));
        assert(ws[1] == (5int, 5 + n));
        assert(ws[2] == (6 + n, 7 + n));
        assert(ws[3] == (8 + n, 8 + n + h));
        assert(ws[4] == (9 + n + h, 10 + n + h));
        assert(word(s, ws[0]).len() == 4);
        assert(!word_is(s, ws[0], seq!['p', 'o', 's', 'i', 't', 'i', 'o', 'n'])) by {
            assert(seq!['p', 'o', 's', 'i', 't', 'i', 'o', 'n'].len() == 8);
        }
        assert(!word_is(s, ws[0], seq!['s', 't', 'a', 'r', 't', 'p', 'o', 's'])) by {
            assert(seq!['s', 't', 'a', 'r', 't', 'p', 'o', 's'].len() == 8);
        }
        assert(word_is(s, ws[0], seq!['s', 'f', 'e', 'n']));
        lemma_board_text(b);
        lemma_board_round_trip(s, 5, 5 + n, b);
        assert(s[6 + n] == s.subrange(6 + n, 7 + n)[0]);
        assert(side_of(s, 6 + n, 7 + n) == Ok::<Side, SfenError>(side));
        lemma_hands_round_trip(s, 8 + n, 8 + n + h, hands);
        let a = 9 + n + h;
        assert(s[a] == s.subrange(a, a + 1)[0]);
        assert(s[a] == '1');
        assert(number_fold(s, a + 1, a + 1, 1) == 1);
        assert(number_fold(s, a, a + 1, 0) == 1);
        assert(ply_of(s, a, a + 1) == Ok::<u32, SfenError>(1u32));
    }
}

/// A position that is written and read back is the same position: the
/// side to move, the board and the hands.
pub proof fn lemma_position_round_trip(side: Side, b: Seq<Piece>, hands: Hands)
    requires
        b.len() == 81,
        hand_fits(hands.of(Side::Hum)),
        hand_fits(hands.of(Side::Com)),
    ensures
        position_of_text(position_text(side, b, hands)) == Ok::<PositionParts, SfenError>(
            position_parts(side, b, hands),
        ),
{
    let t = position_text(side, b, hands);
    let hi = t.len() as int;
    assert(t.subrange(0, hi) =~= t);
    lemma_position_words(t, hi, side, b, hands);
    lemma_trim(t);
    assert(words_from(t, hi, hi) =~= Seq::<(int, int)>::empty());
    let pw = position_words(side, b, hands);
    assert(words(t) =~= pw);
    assert(pw.subrange(0, pw.len() as int) =~= pw);
    lemma_position_of(t, pw, side, b, hands);
}

/// Whether every move of `mvs` can be written and read again.
pub open spec fn moves_fit(mvs: Seq<Move>) -> bool {
    forall|i: int| 0 <= i < mvs.len() ==> move_fits(#[trigger] mvs[i])
}

/// The text of the first moves is where the text of further moves starts.
pub proof fn lemma_moves_prefix(mvs: Seq<Move>, k: int, n: int)
    requires
        0 <= k <= n,
    ensures
        moves_text_upto(mvs, k).len() <= moves_text_upto(mvs, n).len(),
        moves_text_upto(mvs, n).subrange(0, moves_text_upto(mvs, k).len() as int) == moves_text_upto(
            mvs,
            k,
        ),
    decreases n - k,
{
    let x = moves_text_upto(mvs, n);
    if k == n {
        assert(x.subrange(0, x.len() as int) =~= x);
    } else {
        lemma_moves_prefix(mvs, k + 1, n);
        let y = moves_text_upto(mvs, k + 1);
        let z = moves_text_upto(mvs, k);
        assert(y == z + seq![' '] + move_text(mvs[k]));
        assert(x.subrange(0, z.len() as int) =~= x.subrange(0, y.len() as int).subrange(
            0,
            z.len() as int,
        ));
        assert(y.subrange(0, z.len() as int) =~= z);
    }
}

/// The place in a text where the blank before the move `k` stands, when
/// the moves are written from `base` on.
pub open spec fn move_place(base: int, mvs: Seq<Move>, k: int) -> int {
    base + moves_text_upto(mvs, k).len()
}

/// The places of the words of the moves from `k` on.
pub open spec fn move_words(base: int, mvs: Seq<Move>, k: int) -> Seq<(int, int)> {
    Seq::new(
        (mvs.len() - k) as nat,
        |j: int| (move_place(base, mvs, k + j) + 1, move_place(base, mvs, k + j + 1)),
    )
}

/// What a text that ends with written moves holds at the place of the
/// move `k`: a blank, and then the text of the move up to the place of the
/// next.
pub proof fn lemma_move_at(s: Seq<char>, base: int, mvs: Seq<Move>, k: int)
    requires
        moves_fit(mvs),
        0 <= base <= s.len(),
        s.subrange(base, s.len() as int) == moves_text_upto(mvs, mvs.len() as int),
        0 <= k < mvs.len(),
    ensures
        move_place(base, mvs, k + 1) == move_place(base, mvs, k) + 1 + move_text(mvs[k]).len(),
        move_place(base, mvs, k + 1) <= s.len(),
        s[move_place(base, mvs, k)] == ' ',
        s.subrange(move_place(base, mvs, k) + 1, move_place(base, mvs, k + 1)) == move_text(mvs[k]),
        move_place(base, mvs, mvs.len() as int) == s.len(),
{
    let all = moves_text_upto(mvs, mvs.len() as int);
    let y = moves_text_upto(mvs, k + 1);
    let z = moves_text_upto(mvs, k);
    let p = move_place(base, mvs, k);
    let q = move_place(base, mvs, k + 1);
    lemma_moves_prefix(mvs, k + 1, mvs.len() as int);
    assert(all.len() == s.len() - base);
    assert(y == z + seq![' '] + move_text(mvs[k]));
    assert forall|i: int| 0 <= i < y.len() implies s[base + i] == y[i] by {
        assert(s.subrange(base, s.len() as int)[i] == s[base + i]);
        assert(all.subrange(0, y.len() as int)[i] == all[i]);
    }
    assert(s[base + z.len()] == y[z.len() as int]);
    assert forall|i: int| 0 <= i < move_text(mvs[k]).len() implies s.subrange(p + 1, q)[i] == move_text(
        mvs[k],
    )[i] by {
        assert(s[base + (z.len() + 1 + i)] == y[z.len() + 1 + i]);
    }
    assert(s.subrange(p + 1, q) =~= move_text(mvs[k]));
}

/// The words of written moves are the words of the moves.
pub proof fn lemma_move_words(s: Seq<char>, base: int, mvs: Seq<Move>, k: int)
    requires
        moves_fit(mvs),
        0 <= base <= s.len(),
        s.subrange(base, s.len() as int) == moves_text_upto(mvs, mvs.len() as int),
        0 <= k <= mvs.len(),
    ensures
        words_from(s, move_place(base, mvs, k), s.len() as int) == move_words(base, mvs, k),
    decreases mvs.len() - k,
{
    let hi = s.len() as int;
    let p = move_place(base, mvs, k);
    if k == mvs.len() {
        assert(s.subrange(base, hi).len() == hi - base);
        assert(p == hi);
        assert(words_from(s, p, hi) =~= move_words(base, mvs, k));
    } else {
        let q = move_place(base, mvs, k + 1);
        lemma_move_at(s, base, mvs, k);
        lemma_move_text(mvs[k]);
        if k + 1 < mvs.len() {
            lemma_move_at(s, base, mvs, k + 1);
        }
        lemma_word_step(s, p, p + 1, q, hi);
        lemma_move_words(s, base, mvs, k + 1);
        assert(seq![(p + 1, q)] + move_words(base, mvs, k + 1) =~= move_words(base, mvs, k));
    }
}

/// The words of written moves are read as the moves.
pub proof fn lemma_moves_from(
    s: Seq<char>,
    ws: Seq<(int, int)>,
    first: int,
    base: int,
    mvs: Seq<Move>,
    k: int,
    acc: Seq<Move>,
)
    requires
        moves_fit(mvs),
        0 <= base <= s.len(),
        s.subrange(base, s.len() as int) == moves_text_upto(mvs, mvs.len() as int),
        0 <= k <= mvs.len(),
        0 <= first,
        ws.len() == first + mvs.len(),
        ws.subrange(first, ws.len() as int) == move_words(base, mvs, 0),
    ensures
        moves_from(s, ws, first + k, acc) == Ok::<Seq<Move>, SfenError>(
            acc + mvs.subrange(k, mvs.len() as int),
        ),
    decreases mvs.len() - k,
{
    let n = mvs.len() as int;
    if k == n {
        assert(acc + mvs.subrange(k, n) =~= acc);
    } else {
        let p = move_place(base, mvs, k);
        let q = move_place(base, mvs, k + 1);
        assert(ws[first + k] == ws.subrange(first, ws.len() as int)[k]);
        assert(ws[first + k] == (p + 1, q));
        lemma_move_at(s, base, mvs, k);
        lemma_move_text(mvs[k]);
        lemma_move_of_same(s, p + 1, q, move_text(mvs[k]));
        lemma_moves_from(s, ws, first, base, mvs, k + 1, acc.push(mvs[k]));
        assert(acc.push(mvs[k]) + mvs.subrange(k + 1, n) =~= acc + mvs.subrange(k, n));
    }
}

/// A game that is written and read back is the same game: the side to
/// move, the board, the hands and the moves.
pub proof fn lemma_game_round_trip(side: Side, b: Seq<Piece>, hands: Hands, mvs: Seq<Move>)
    requires
        b.len() == 81,
        hand_fits(hands.of(Side::Hum)),
        hand_fits(hands.of(Side::Com)),
        moves_fit(mvs),
    ensures
        game_of_text(game_text(side, b, hands, mvs)) == Ok::<(PositionParts, Seq<Move>), SfenError>(
            (position_parts(side, b, hands), mvs),
        ),
{
    let t = position_text(side, b, hands);
    let lit = seq![' ', 'm', 'o', 'v', 'e', 's'];
    let tail = moves_text_upto(mvs, mvs.len() as int);
    let g = game_text(side, b, hands, mvs);
    let hi = g.len() as int;
    let n = t.len() as int;
    let base = n + 6;
    let pw = position_words(side, b, hands);
    let mw = move_words(base, mvs, 0);
    assert(g == t + lit + tail);
    assert(g.subrange(0, n) =~= t);
    assert(g.subrange(base, hi) =~= tail);
    assert(g.subrange(n + 1, n + 6) =~= seq!['m', 'o', 'v', 'e', 's']);
    assert(g[n] == ' ');
    lemma_position_words(g, hi, side, b, hands);
    assert(solid_text(seq!['m', 'o', 'v', 'e', 's']));
    if mvs.len() > 0 {
        lemma_move_at(g, base, mvs, 0);
        assert(moves_text_upto(mvs, 0).len() == 0);
        assert(g[base] == ' ');
    }
    lemma_word_step(g, n, n + 1, n + 6, hi);
    lemma_move_words(g, base, mvs, 0);
    assert(move_place(base, mvs, 0) == base);
    let ws = pw + seq![(n + 1, n + 6)] + mw;
    assert(words_from(g, 0, hi) =~= ws);
    assert(solid(g[hi - 1])) by {
        if mvs.len() > 0 {
            let last = mvs.len() - 1;
            lemma_move_at(g, base, mvs, last);
            lemma_move_text(mvs[last]);
            let p = move_place(base, mvs, last);
            let w = move_text(mvs[last]);
            assert(g.subrange(p + 1, hi)[w.len() - 1] == g[hi - 1]);
            assert(solid(w[w.len() - 1]));
        } else {
            assert(tail.len() == 0);
            assert(g[hi - 1] == 's');
        }
    }
    lemma_trim(g);
    assert(words(g) == ws);
    assert(ws.subrange(0, pw.len() as int) =~= pw);
    lemma_position_of(g, ws, side, b, hands);
    let used = pw.len() as int;
    assert(ws[used] == (n + 1, n + 6));
    assert(word_is(g, ws[used], seq!['m', 'o', 'v', 'e', 's']));
    assert(ws.subrange(used + 1, ws.len() as int) =~= mw);
    lemma_moves_from(g, ws, used + 1, base, mvs, 0, Seq::empty());
    assert(Seq::<Move>::empty() + mvs.subrange(0, mvs.len() as int) =~= mvs);
}

/// A text that was written for a position, a move or a game is written
/// again, letter for letter, from what it is read as.
pub proof fn lemma_text_round_trip(side: Side, b: Seq<Piece>, hands: Hands, mvs: Seq<Move>, mv: Move)
    requires
        b.len() == 81,
        hand_fits(hands.of(Side::Hum)),
        hand_fits(hands.of(Side::Com)),
        moves_fit(mvs),
        move_fits(mv),
    ensures
        ({
            let p = position_of_text(position_text(side, b, hands)).unwrap();
            let g = game_of_text(game_text(side, b, hands, mvs)).unwrap();
            let m = move_of_text(move_text(mv)).unwrap();
            &&& p.hum == hands.of(Side::Hum)@ && p.com == hands.of(Side::Com)@
            &&& position_text(p.side, p.cells, hands) == position_text(side, b, hands)
            &&& g.0.hum == hands.of(Side::Hum)@ && g.0.com == hands.of(Side::Com)@
            &&& game_text(g.0.side, g.0.cells, hands, g.1) == game_text(side, b, hands, mvs)
            &&& move_text(m) == move_text(mv)
        }),
{
    lemma_position_round_trip(side, b, hands);
    lemma_game_round_trip(side, b, hands, mvs);
    lemma_move_round_trip(mv);
}

} // verus!
