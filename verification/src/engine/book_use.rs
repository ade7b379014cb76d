//! How the engine uses the opening book: a book move is played only when
//! it can be played, wins the exchange on its destination, and loses
//! nothing.

use vstd::prelude::*;
use crate::shogi::{Side, Square};
use crate::piece::{Piece, PieceKind};
use crate::moves::{Move, UndoableMove};
use crate::position::{Position, lemma_undo_restores};
use crate::bbs::{attacks, effect};
use crate::book::{BookState, Formation};
use crate::naitou::naitou_piece_price_d;
use crate::engine::eval::{disadv_price_upto, disadv_upto, disadvantage_squares};
use crate::engine::search::{after, lemma_after};

verus! {

/// Whether the book move `mv` obeys how the pieces move: it moves a piece
/// of COM as the piece moves to a square that holds no piece of COM, and
/// does not move the king onto a square that HUM attacks.
pub open spec fn book_legal(pos: Position, mv: Move) -> bool {
    let b = pos.board@;
    let src = mv.spec_src();
    let dst = mv.spec_dst();
    &&& !b[dst.0 as int].is_of(Side::Com)
    &&& b[src.0 as int].is_of(Side::Com)
    &&& attacks(b[src.0 as int], src, pos.bb_occ, dst.0 as int)
    &&& !(b[src.0 as int] == Piece::CKing && pos.effect(Side::Hum, dst.0 as int) != 0)
}

/// The disadvantage price of the position after the book move `mv`.
pub open spec fn book_disadv(pos: Position, mv: Move) -> u8 {
    let dis = disadv_upto(after(pos, mv), 81);
    disadv_price_upto(dis, dis.len() as int) as u8
}

/// Whether the engine plays the book move `mv`: the move is legal and can
/// be played, COM attacks its destination more often than HUM, and the
/// position after it has no disadvantage square.  The last condition is
/// waived up to progress ply 6 when HUM has just moved to the square on
/// file 4, rank 5.
pub open spec fn book_accepts(pos: Position, ply: u8, mv_hum: Option<Move>, mv: Move) -> bool {
    &&& book_legal(pos, mv)
    &&& pos.effect(Side::Hum, mv.spec_dst().0 as int) < pos.effect(Side::Com, mv.spec_dst().0 as int)
    &&& pos.playable(mv)
    &&& (book_disadv(pos, mv) == 0 || (ply <= 6 && mv_hum.is_some() && mv_hum.unwrap().spec_dst()
        == Square(31)))
}

/// The state of the book after the engine has asked it, and the move that
/// the engine plays, if any.  The book is asked until it gives a move that
/// the engine accepts or leaves the book; moves that are not accepted are
/// used up all the same.  After `fuel` moves the engine stops asking.
pub open spec fn book_pick(pos: Position, ply: u8, book: BookState, mv_hum: Option<Move>, fuel: nat) -> (
    BookState,
    Option<Move>,
)
    decreases fuel,
{
    if fuel == 0 || book.formation == Formation::Nothing {
        (book, None)
    } else {
        let step = book.stepped(pos.board@, ply);
        match step.1 {
            None => (step.0, None),
            Some(mv) => if book_accepts(pos, ply, mv_hum, mv) {
                (step.0, Some(mv))
            } else {
                book_pick(pos, ply, step.0, mv_hum, (fuel - 1) as nat)
            },
        }
    }
}

/// Whether the book move `mv` obeys how the pieces move.
pub fn book_move_legal(pos: &Position, mv: Move) -> (r: bool)
    requires
        pos.wf(),
        mv.spec_is_valid(),
        !mv.spec_is_drop(),
    ensures
        r == book_legal(*pos, mv),
{
    let dst: Square = mv.dst();
    let src: Square = mv.src();
    let pc_dst: Piece = pos.board().get(dst);
    if pc_dst.is_piece() && pc_dst.side() == Side::Com {
        return false;
    }
    let pc_src: Piece = pos.board().get(src);
    if !pc_src.is_piece() || pc_src.side() != Side::Com {
        return false;
    }
    if !effect(pc_src, src, pos.bb_occupied()).test_square(dst) {
        return false;
    }
    if pc_src == Piece::CKing && pos.effect_count(Side::Hum, dst) != 0 {
        return false;
    }
    true
}

/// The disadvantage price of the position after the book move `mv`.  The
/// position is left as it was.
pub fn book_move_disadv(pos: &mut Position, mv: Move) -> (r: u8)
    requires
        old(pos).wf(),
        old(pos).playable(mv),
    ensures
        *final(pos) == *old(pos),
        r == book_disadv(*old(pos), mv),
{
    let ghost p0 = *pos;
    let umv: UndoableMove = pos.do_move(mv);
    let ghost p1 = *pos;
    proof {
        lemma_after(p0, mv, p1, umv);
    }
    let dis: Vec<(Square, PieceKind, bool)> = disadvantage_squares(pos);
    let mut disadv_price: u8 = 0;
    let mut j: usize = 0;
    while j < dis.len()
        invariant
            j <= dis@.len(),
            forall|k: int| 0 <= k < dis@.len() ==> (#[trigger] dis@[k]).1.spec_is_piece(),
            disadv_price == disadv_price_upto(dis@, j as int),
            disadv_price <= 40,
        decreases dis@.len() - j,
    {
        let price: u8 = naitou_piece_price_d(dis[j].1);
        if disadv_price < price {
            disadv_price = price;
        }
        if dis[j].2 {
            disadv_price = disadv_price - 1;
        }
        j += 1;
    }
    pos.undo_move(umv);
    proof {
        lemma_undo_restores(p0, mv, p1, umv, *pos);
    }
    disadv_price
}

/// Whether the engine plays the book move `mv`.  The position is left as it
/// was.
pub fn book_move_accepted(pos: &mut Position, ply: u8, mv_hum: Option<Move>, mv: Move) -> (r: bool)
    requires
        old(pos).wf(),
        mv.spec_is_valid(),
        !mv.spec_is_drop(),
    ensures
        *final(pos) == *old(pos),
        r == book_accepts(*old(pos), ply, mv_hum, mv),
{
    if !book_move_legal(pos, mv) {
        return false;
    }
    if pos.effect_count(Side::Hum, mv.dst()) >= pos.effect_count(Side::Com, mv.dst()) {
        return false;
    }
    if !pos.is_playable(mv) {
        return false;
    }
    let disadv_price: u8 = book_move_disadv(pos, mv);
    let waived: bool = ply <= 6 && match mv_hum {
        Some(m) => m.dst().0 == 31,
        None => false,
    };
    !(disadv_price > 0 && !waived)
}

/// Asks the book until it gives a move that the engine plays, or leaves the
/// book.  The position is left as it was.
pub fn pick_book_move(pos: &mut Position, ply: u8, book: &mut BookState, mv_hum: Option<Move>) -> (r:
    Option<Move>)
    requires
        old(pos).wf(),
        old(book).wf(),
    ensures
        *final(pos) == *old(pos),
        (*final(book), r) == book_pick(*old(pos), ply, *old(book), mv_hum, 128),
        final(book).wf(),
        r.is_some() ==> old(pos).playable(r.unwrap()) && final(book).formation != Formation::Nothing,
{
    let ghost b0 = *book;
    let mut fuel: u32 = 128;
    loop
        invariant
            *pos == *old(pos),
            pos.wf(),
            book.wf(),
            b0 == *old(book),
            fuel <= 128,
            book_pick(*pos, ply, b0, mv_hum, 128) == book_pick(*pos, ply, *book, mv_hum, fuel as nat),
        decreases fuel,
    {
        if fuel == 0 || book.formation().is_nothing() {
            return None;
        }
        let ghost before = *book;
        match book.next_move(pos, ply) {
            None => {
                return None;
            },
            Some(mv) => {
                if book_move_accepted(pos, ply, mv_hum, mv) {
                    return Some(mv);
                }
            },
        }
        fuel = fuel - 1;
    }
}

} // verus!
