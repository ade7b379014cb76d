//! Writing positions, moves and games as text.
//!
//! A position is written as `startpos` for the even starting position with
//! HUM to move, and otherwise as `sfen`, the board, the side to move (`b`
//! for HUM, `w` for COM), the hands and the ply, which is always 1.  The
//! board is written rank by rank from rank 1, each rank from file 9 to
//! file 1, with `/` between the ranks: a letter for a piece (upper case for
//! HUM, lower case for COM, `+` before a promoted piece) and a digit for a
//! run of empty squares.  The hands are written as `-` when both are empty,
//! and otherwise as HUM's pieces, then COM's, each in the order rook,
//! bishop, gold, silver, knight, lance, pawn, with the count before the
//! letter when it is 2 or more.

use vstd::prelude::*;
use crate::shogi::{Side, Square};
use crate::piece::{Piece, PieceKind};
use crate::moves::Move;
use crate::board::{Board, Hand, Hands};
use crate::sfen::text::{
    decimal, digit_char, digit_to_char, kind_char, kind_to_char, push_decimal, rank_char,
    rank_to_char, string_of,
};

verus! {

/// The text of a piece.
pub open spec fn piece_text(pc: Piece) -> Seq<char> {
    let pk = pc.spec_kind();
    let letter = kind_char(pc.spec_side(), if pk == PieceKind::King { pk } else { pk.raw() });
    if pk.spec_is_promoted() {
        seq!['+', letter]
    } else {
        seq![letter]
    }
}

/// The text of a run of `run` empty squares: nothing for no square, else
/// the digit.
pub open spec fn run_text(run: int) -> Seq<char> {
    if run > 0 {
        seq![digit_char(run)]
    } else {
        Seq::empty()
    }
}

/// The text of the first `n` squares of rank `row`, counted from file 9,
/// without the run of empty squares that it ends with, and the length of
/// that run.
pub open spec fn row_text_upto(b: Seq<Piece>, row: int, n: int) -> (Seq<char>, int)
    decreases n,
{
    if n <= 0 {
        (Seq::empty(), 0)
    } else {
        let rest = row_text_upto(b, row, n - 1);
        let pc = b[9 * (9 - n) + row];
        if pc == Piece::NoPiece {
            (rest.0, rest.1 + 1)
        } else {
            (rest.0 + run_text(rest.1) + piece_text(pc), 0)
        }
    }
}

/// The text of rank `row`.
pub open spec fn row_text(b: Seq<Piece>, row: int) -> Seq<char> {
    let t = row_text_upto(b, row, 9);
    t.0 + run_text(t.1)
}

/// The text of the first `n` ranks, with `/` between them.
pub open spec fn board_text_upto(b: Seq<Piece>, n: int) -> Seq<char>
    decreases n,
{
    if n <= 0 {
        Seq::empty()
    } else if n == 1 {
        row_text(b, 0)
    } else {
        board_text_upto(b, n - 1) + seq!['/'] + row_text(b, n - 1)
    }
}

/// The text of the board.
pub open spec fn board_text(b: Seq<Piece>) -> Seq<char> {
    board_text_upto(b, 9)
}

/// The text of `n` pieces of kind `pk` in the hand of `side`.
pub open spec fn hand_entry(side: Side, pk: PieceKind, n: u32) -> Seq<char> {
    if n == 0 {
        Seq::empty()
    } else if n >= 2 {
        decimal(n as nat).push(kind_char(side, pk))
    } else {
        seq![kind_char(side, pk)]
    }
}

/// The text of the hand of `side`.
pub open spec fn hand_text(side: Side, h: Hand) -> Seq<char> {
    hand_entry(side, PieceKind::Rook, h@[6]) + hand_entry(side, PieceKind::Bishop, h@[5])
        + hand_entry(side, PieceKind::Gold, h@[7]) + hand_entry(side, PieceKind::Silver, h@[4])
        + hand_entry(side, PieceKind::Knight, h@[3]) + hand_entry(side, PieceKind::Lance, h@[2])
        + hand_entry(side, PieceKind::Pawn, h@[1])
}

/// Whether a hand holds nothing.
pub open spec fn hand_is_empty(h: Hand) -> bool {
    forall|i: int| 0 <= i < 8 ==> h@[i] == 0
}

/// The text of the hands.
pub open spec fn hands_text(hands: Hands) -> Seq<char> {
    if hand_is_empty(hands.of(Side::Hum)) && hand_is_empty(hands.of(Side::Com)) {
        seq!['-']
    } else {
        hand_text(Side::Hum, hands.of(Side::Hum)) + hand_text(Side::Com, hands.of(Side::Com))
    }
}

/// The text of a side to move.
pub open spec fn side_text(side: Side) -> Seq<char> {
    match side {
        Side::Hum => seq!['b'],
        Side::Com => seq!['w'],
    }
}

/// The text of a position.
pub open spec fn position_text(side: Side, b: Seq<Piece>, hands: Hands) -> Seq<char> {
    if side == Side::Hum && b =~= Board::startpos_spec() && hand_is_empty(hands.of(Side::Hum))
        && hand_is_empty(hands.of(Side::Com)) {
        seq!['s', 't', 'a', 'r', 't', 'p', 'o', 's']
    } else {
        seq!['s', 'f', 'e', 'n', ' '] + board_text(b) + seq![' '] + side_text(side) + seq![' ']
            + hands_text(hands) + seq![' ', '1']
    }
}

/// The text of a square: the digit of its file, then the letter of its
/// rank.
pub open spec fn square_text(sq: Square) -> Seq<char> {
    seq![digit_char(sq.c() + 1), rank_char(sq.r())]
}

/// The text of a valid move: for a drop the letter of the kind, `*` and
/// the square; for another move its two squares, and `+` for a promotion.
/// A take-back move starts with `!`.
pub open spec fn move_text(mv: Move) -> Seq<char> {
    let mark = if mv.spec_is_matta() { seq!['!'] } else { Seq::<char>::empty() };
    if mv.spec_is_drop() {
        mark + seq![kind_char(Side::Hum, mv.dropped()), '*'] + square_text(mv.spec_dst())
    } else {
        mark + square_text(mv.spec_src()) + square_text(mv.spec_dst()) + (if mv.spec_is_promotion() {
            seq!['+']
        } else {
            Seq::<char>::empty()
        })
    }
}

/// The text of the first `n` moves, each after a blank.
pub open spec fn moves_text_upto(mvs: Seq<Move>, n: int) -> Seq<char>
    decreases n,
{
    if n <= 0 {
        Seq::empty()
    } else {
        moves_text_upto(mvs, n - 1) + seq![' '] + move_text(mvs[n - 1])
    }
}

/// The text of a game: the position, ` moves`, and the moves.
pub open spec fn game_text(side: Side, b: Seq<Piece>, hands: Hands, mvs: Seq<Move>) -> Seq<char> {
    position_text(side, b, hands) + seq![' ', 'm', 'o', 'v', 'e', 's'] + moves_text_upto(
        mvs,
        mvs.len() as int,
    )
}

/// Adds the text of a piece.
pub fn sfen_encode_board_piece(pc: Piece, s: &mut Vec<char>)
    requires
        pc.is_piece(),
    ensures
        final(s)@ == old(s)@ + piece_text(pc),
{
    let side: Side = pc.side();
    let pk: PieceKind = pc.kind();
    if pk.is_promoted() {
        s.push('+');
    }
    let pr: PieceKind = if pk.inner() == 8 { pk } else { pk.to_raw() };
    s.push(kind_to_char(side, pr));
    assert(s@ =~= old(s)@ + piece_text(pc));
}

/// Adds the text of rank `row`.
pub fn sfen_encode_board_row(board: &Board, row: u32, s: &mut Vec<char>)
    requires
        row < 9,
    ensures
        final(s)@ == old(s)@ + row_text(board@, row as int),
{
    let ghost base = s@;
    let mut run_blank: u32 = 0;
    let mut n: u32 = 0;
    assert(base + row_text_upto(board@, row as int, 0).0 =~= base);
    while n < 9
        invariant
            n <= 9,
            row < 9,
            run_blank == row_text_upto(board@, row as int, n as int).1,
            run_blank <= n,
            s@ == base + row_text_upto(board@, row as int, n as int).0,
        decreases 9 - n,
    {
        let sq: Square = Square((9 * (8 - n) + row) as i32);
        let pc: Piece = board.get(sq);
        let ghost before = s@;
        let ghost rest = row_text_upto(board@, row as int, n as int);
        if pc == Piece::NoPiece {
            run_blank = run_blank + 1;
        } else {
            if run_blank > 0 {
                s.push(digit_to_char(run_blank));
                run_blank = 0;
            }
            assert(s@ =~= before + run_text(rest.1));
            sfen_encode_board_piece(pc, s);
            assert(s@ =~= base + (rest.0 + run_text(rest.1) + piece_text(pc)));
        }
        n += 1;
    }
    let ghost all = row_text_upto(board@, row as int, 9);
    if run_blank > 0 {
        s.push(digit_to_char(run_blank));
    }
    assert(s@ =~= base + (all.0 + run_text(all.1)));
}

/// Adds the text of the board.
pub fn sfen_encode_board(board: &Board, s: &mut Vec<char>)
    ensures
        final(s)@ == old(s)@ + board_text(board@),
{
    let ghost base = s@;
    let mut row: u32 = 0;
    assert(base + board_text_upto(board@, 0) =~= base);
    while row < 9
        invariant
            row <= 9,
            s@ == base + board_text_upto(board@, row as int),
        decreases 9 - row,
    {
        let ghost sofar = board_text_upto(board@, row as int);
        if row != 0 {
            s.push('/');
            assert(s@ =~= base + (sofar + seq!['/']));
        }
        sfen_encode_board_row(board, row, s);
        proof {
            if row == 0 {
                assert(s@ =~= base + row_text(board@, 0));
            } else {
                assert(s@ =~= base + (sofar + seq!['/'] + row_text(board@, row as int)));
            }
        }
        row += 1;
    }
}

/// Adds the text of a side to move.
pub fn sfen_encode_side(side_to_move: Side, s: &mut Vec<char>)
    ensures
        final(s)@ == old(s)@ + side_text(side_to_move),
{
    match side_to_move {
        Side::Hum => s.push('b'),
        Side::Com => s.push('w'),
    }
    assert(s@ =~= old(s)@ + side_text(side_to_move));
}

/// Adds the text of `n` pieces of kind `pk` in the hand of `side`.
pub fn sfen_encode_hand_piece(side: Side, pk: PieceKind, n: u32, s: &mut Vec<char>)
    requires
        pk.is_hand(),
    ensures
        final(s)@ == old(s)@ + hand_entry(side, pk, n),
{
    if n == 0 {
        assert(s@ =~= old(s)@ + hand_entry(side, pk, n));
        return ;
    }
    if n >= 2 {
        push_decimal(n, s);
    }
    s.push(kind_to_char(side, pk));
    assert(s@ =~= old(s)@ + hand_entry(side, pk, n));
}

/// Adds the text of the hand of `side`.
pub fn sfen_encode_hand(side: Side, hand: &Hand, s: &mut Vec<char>)
    ensures
        final(s)@ == old(s)@ + hand_text(side, *hand),
{
    let ghost base = s@;
    let ghost e1 = hand_entry(side, PieceKind::Rook, hand@[6]);
    let ghost e2 = hand_entry(side, PieceKind::Bishop, hand@[5]);
    let ghost e3 = hand_entry(side, PieceKind::Gold, hand@[7]);
    let ghost e4 = hand_entry(side, PieceKind::Silver, hand@[4]);
    let ghost e5 = hand_entry(side, PieceKind::Knight, hand@[3]);
    let ghost e6 = hand_entry(side, PieceKind::Lance, hand@[2]);
    let ghost e7 = hand_entry(side, PieceKind::Pawn, hand@[1]);
    sfen_encode_hand_piece(side, PieceKind::Rook, hand.get(PieceKind::Rook), s);
    sfen_encode_hand_piece(side, PieceKind::Bishop, hand.get(PieceKind::Bishop), s);
    assert(s@ =~= base + (e1 + e2));
    sfen_encode_hand_piece(side, PieceKind::Gold, hand.get(PieceKind::Gold), s);
    assert(s@ =~= base + (e1 + e2 + e3));
    sfen_encode_hand_piece(side, PieceKind::Silver, hand.get(PieceKind::Silver), s);
    assert(s@ =~= base + (e1 + e2 + e3 + e4));
    sfen_encode_hand_piece(side, PieceKind::Knight, hand.get(PieceKind::Knight), s);
    assert(s@ =~= base + (e1 + e2 + e3 + e4 + e5));
    sfen_encode_hand_piece(side, PieceKind::Lance, hand.get(PieceKind::Lance), s);
    assert(s@ =~= base + (e1 + e2 + e3 + e4 + e5 + e6));
    sfen_encode_hand_piece(side, PieceKind::Pawn, hand.get(PieceKind::Pawn), s);
    assert(s@ =~= base + (e1 + e2 + e3 + e4 + e5 + e6 + e7));
}

/// Adds the text of the hands.
pub fn sfen_encode_hands(hands: &Hands, s: &mut Vec<char>)
    ensures
        final(s)@ == old(s)@ + hands_text(*hands),
{
    let hum: Hand = hands.get(Side::Hum);
    let com: Hand = hands.get(Side::Com);
    if hum.is_empty() && com.is_empty() {
        s.push('-');
        assert(s@ =~= old(s)@ + hands_text(*hands));
        return ;
    }
    let ghost base = s@;
    sfen_encode_hand(Side::Hum, &hum, s);
    sfen_encode_hand(Side::Com, &com, s);
    assert(s@ =~= base + (hand_text(Side::Hum, hum) + hand_text(Side::Com, com)));
}

/// Adds the text of a ply.
pub fn sfen_encode_ply(ply: u32, s: &mut Vec<char>)
    ensures
        final(s)@ == old(s)@ + decimal(ply as nat),
{
    push_decimal(ply, s);
}

/// Adds the digit of the file with index `col`.
pub fn sfen_encode_move_col(col: u32, s: &mut Vec<char>)
    requires
        col < 9,
    ensures
        final(s)@ == old(s)@.push(digit_char(col + 1)),
{
    s.push(digit_to_char(col + 1));
}

/// Adds the letter of the rank with index `row`.
pub fn sfen_encode_move_row(row: u32, s: &mut Vec<char>)
    requires
        row < 9,
    ensures
        final(s)@ == old(s)@.push(rank_char(row as int)),
{
    s.push(rank_to_char(row));
}

/// Adds the letter of a dropped kind.
pub fn sfen_encode_move_drop_piece_kind(pk: PieceKind, s: &mut Vec<char>)
    requires
        pk.is_hand(),
    ensures
        final(s)@ == old(s)@.push(kind_char(Side::Hum, pk)),
{
    s.push(kind_to_char(Side::Hum, pk));
}

/// Adds the text of an on-board square.
pub fn sfen_encode_square(sq: Square, s: &mut Vec<char>)
    requires
        sq.on_board(),
    ensures
        final(s)@ == old(s)@ + square_text(sq),
{
    sfen_encode_move_col((sq.0 / 9) as u32, s);
    sfen_encode_move_row((sq.0 % 9) as u32, s);
    assert(s@ =~= old(s)@ + square_text(sq));
}

/// Adds the text of a move that is no drop, without the take-back mark.
pub fn sfen_encode_move_walk(mv_walk: Move, s: &mut Vec<char>)
    requires
        mv_walk.spec_is_valid(),
        !mv_walk.spec_is_drop(),
    ensures
        final(s)@ == old(s)@ + square_text(mv_walk.spec_src()) + square_text(mv_walk.spec_dst()) + (
        if mv_walk.spec_is_promotion() {
            seq!['+']
        } else {
            Seq::<char>::empty()
        }),
{
    sfen_encode_square(mv_walk.src(), s);
    sfen_encode_square(mv_walk.dst(), s);
    if mv_walk.is_promotion() {
        s.push('+');
    }
    assert(s@ =~= old(s)@ + square_text(mv_walk.spec_src()) + square_text(mv_walk.spec_dst()) + (
    if mv_walk.spec_is_promotion() {
        seq!['+']
    } else {
        Seq::<char>::empty()
    }));
}

/// Adds the text of a drop, without the take-back mark.
pub fn sfen_encode_move_drop(mv_drop: Move, s: &mut Vec<char>)
    requires
        mv_drop.spec_is_valid(),
        mv_drop.spec_is_drop(),
    ensures
        final(s)@ == old(s)@ + seq![kind_char(Side::Hum, mv_drop.dropped()), '*'] + square_text(
            mv_drop.spec_dst(),
        ),
{
    sfen_encode_move_drop_piece_kind(mv_drop.dropped_piece_kind(), s);
    s.push('*');
    let ghost mid = s@;
    sfen_encode_square(mv_drop.dst(), s);
    assert(mid =~= old(s)@ + seq![kind_char(Side::Hum, mv_drop.dropped()), '*']);
}

/// Adds the text of a valid move.
pub fn sfen_encode_move_impl(mv: Move, s: &mut Vec<char>)
    requires
        mv.spec_is_valid(),
    ensures
        final(s)@ == old(s)@ + move_text(mv),
{
    let ghost base = s@;
    if mv.is_matta() {
        s.push('!');
    }
    let ghost mark = if mv.spec_is_matta() { seq!['!'] } else { Seq::<char>::empty() };
    assert(s@ =~= base + mark);
    if mv.is_drop() {
        sfen_encode_move_drop(mv, s);
        assert(s@ =~= base + (mark + seq![kind_char(Side::Hum, mv.dropped()), '*'] + square_text(
            mv.spec_dst(),
        )));
    } else {
        sfen_encode_move_walk(mv, s);
        assert(s@ =~= base + (mark + square_text(mv.spec_src()) + square_text(mv.spec_dst()) + (
        if mv.spec_is_promotion() {
            seq!['+']
        } else {
            Seq::<char>::empty()
        })));
    }
}

/// Adds the text of a position.
pub fn sfen_encode_position_impl(side_to_move: Side, board: &Board, hands: &Hands, s: &mut Vec<char>)
    ensures
        final(s)@ == old(s)@ + position_text(side_to_move, board@, *hands),
{
    let ghost base = s@;
    let even: bool = match side_to_move {
        Side::Hum => board.same(&Board::startpos()) && hands.get(Side::Hum).is_empty() && hands.get(
            Side::Com,
        ).is_empty(),
        Side::Com => false,
    };
    if even {
        s.push('s');
        s.push('t');
        s.push('a');
        s.push('r');
        s.push('t');
        s.push('p');
        s.push('o');
        s.push('s');
        assert(s@ =~= base + seq!['s', 't', 'a', 'r', 't', 'p', 'o', 's']);
        return ;
    }
    s.push('s');
    s.push('f');
    s.push('e');
    s.push('n');
    s.push(' ');
    assert(s@ =~= base + seq!['s', 'f', 'e', 'n', ' ']);
    sfen_encode_board(board, s);
    s.push(' ');
    sfen_encode_side(side_to_move, s);
    s.push(' ');
    sfen_encode_hands(hands, s);
    s.push(' ');
    sfen_encode_ply(1, s);
    proof {
        assert(decimal(1) =~= seq!['1']);
        assert(s@ =~= base + (seq!['s', 'f', 'e', 'n', ' '] + board_text(board@) + seq![' ']
            + side_text(side_to_move) + seq![' '] + hands_text(*hands) + seq![' ', '1']));
    }
}

/// The text of a position.
pub fn sfen_encode_position(side_to_move: Side, board: &Board, hands: &Hands) -> (r: String)
    ensures
        r@ == position_text(side_to_move, board@, *hands),
{
    let mut s: Vec<char> = Vec::new();
    sfen_encode_position_impl(side_to_move, board, hands, &mut s);
    assert(s@ =~= position_text(side_to_move, board@, *hands));
    string_of(&s)
}

/// The text of a valid move.
pub fn sfen_encode_move(mv: Move) -> (r: String)
    requires
        mv.spec_is_valid(),
    ensures
        r@ == move_text(mv),
{
    let mut s: Vec<char> = Vec::new();
    sfen_encode_move_impl(mv, &mut s);
    assert(s@ =~= move_text(mv));
    string_of(&s)
}

/// The text of a game: a position and the moves played from it, which
/// must be valid.
pub fn sfen_encode(side_to_move: Side, board: &Board, hands: &Hands, mvs: &Vec<Move>) -> (r: String)
    requires
        forall|i: int| 0 <= i < mvs@.len() ==> (#[trigger] mvs@[i]).spec_is_valid(),
    ensures
        r@ == game_text(side_to_move, board@, *hands, mvs@),
{
    let mut s: Vec<char> = Vec::new();
    sfen_encode_position_impl(side_to_move, board, hands, &mut s);
    s.push(' ');
    s.push('m');
    s.push('o');
    s.push('v');
    s.push('e');
    s.push('s');
    let ghost head = position_text(side_to_move, board@, *hands) + seq![' ', 'm', 'o', 'v', 'e', 's'];
    assert(s@ =~= head + moves_text_upto(mvs@, 0));
    let mut i: usize = 0;
    while i < mvs.len()
        invariant
            i <= mvs@.len(),
            forall|k: int| 0 <= k < mvs@.len() ==> (#[trigger] mvs@[k]).spec_is_valid(),
            s@ == head + moves_text_upto(mvs@, i as int),
        decreases mvs@.len() - i,
    {
        let ghost sofar = moves_text_upto(mvs@, i as int);
        s.push(' ');
        sfen_encode_move_impl(mvs[i], &mut s);
        assert(s@ =~= head + (sofar + seq![' '] + move_text(mvs@[i as int])));
        i += 1;
    }
    string_of(&s)
}

} // verus!
