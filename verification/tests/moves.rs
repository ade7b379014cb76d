use naitou_shogi::direction::{Direction, DirectionSet, SquareWithWall};
use naitou_shogi::moves::{Move, UndoableMove};
use naitou_shogi::mynum::{WrappingAddAssign, WrappingSubAssign};
use naitou_shogi::piece::{
    Piece, PieceKind, BISHOP, C_GOLD, C_PAWN, DRAGON, GOLD, HORSE, H_BISHOP, H_HORSE, H_PAWN,
    H_SILVER, KING, KNIGHT, LANCE, NO_PIECE, NO_PIECE_KIND, PAWN, PRO_PAWN, ROOK, SILVER,
};
use naitou_shogi::shogi::{Side, Square, COM, HUM};
use naitou_shogi::shogi::{SQ_11, SQ_22, SQ_55, SQ_76, SQ_77, SQ_88, SQ_99};
use naitou_shogi::util::{chmax, chmin};

#[test]
fn test_move_fields() {
    let walk = Move::new_walk(SQ_77(), SQ_76());
    assert!(walk.is_valid());
    assert!(!walk.is_drop());
    assert!(!walk.is_promotion());
    assert!(!walk.is_matta());
    assert_eq!(walk.src(), SQ_77());
    assert_eq!(walk.dst(), SQ_76());
    assert_eq!(walk.0, 59 + 128 * 60);

    let promo = Move::new_walk_promotion(SQ_88(), SQ_22());
    assert!(promo.is_valid());
    assert!(promo.is_promotion());
    assert!(!promo.is_drop());
    assert_eq!(promo.src(), SQ_88());
    assert_eq!(promo.dst(), SQ_22());
    assert_eq!(promo.0, 10 + 128 * 70 + 32768);

    let drop = Move::new_drop(GOLD, SQ_55());
    assert!(drop.is_valid());
    assert!(drop.is_drop());
    assert!(!drop.is_promotion());
    assert_eq!(drop.dropped_piece_kind(), GOLD);
    assert_eq!(drop.dst(), SQ_55());
    assert_eq!(drop.0, 40 + 128 * 7 + 16384);

    let matta = Move::new_matta(walk);
    assert!(matta.is_matta());
    assert!(matta.is_valid());
    assert_eq!(matta.src(), SQ_77());
    assert_eq!(matta.dst(), SQ_76());
    assert_ne!(matta, walk);
}

#[test]
fn test_move_validity() {
    // Origin and destination must differ.
    assert!(!Move(0).is_valid());
    assert!(!Move(5 + 128 * 5).is_valid());
    // Both must lie on the board.
    assert!(!Move(81 + 128 * 5).is_valid());
    assert!(!Move(5 + 128 * 81).is_valid());
    // No drop promotes.
    assert!(!Move(5 + 128 * 1 + 16384 + 32768).is_valid());
    // Only kinds that can be held are dropped.
    assert!(!Move(5 + 128 * 0 + 16384).is_valid());
    assert!(!Move(5 + 128 * 8 + 16384).is_valid());
    assert!(Move(5 + 128 * 7 + 16384).is_valid());
    assert!(Move(80 + 128 * 0).is_valid());
}

#[test]
fn test_undoable_move_fields() {
    let mv = Move::new_walk_promotion(SQ_88(), SQ_22());
    let umv = UndoableMove::from_move_walk(mv, H_BISHOP, naitou_shogi::piece::C_BISHOP);
    assert!(umv.is_valid());
    assert!(umv.is_promotion());
    assert!(!umv.is_drop());
    assert_eq!(umv.src(), SQ_88());
    assert_eq!(umv.dst(), SQ_22());
    assert_eq!(umv.piece_src(), H_BISHOP);
    assert_eq!(umv.piece_dst(), H_HORSE);
    assert_eq!(umv.piece_captured(), naitou_shogi::piece::C_BISHOP);
    assert_eq!(umv.to_move(), mv);

    let quiet = UndoableMove::from_move_walk(Move::new_walk(SQ_77(), SQ_76()), H_PAWN, NO_PIECE);
    assert!(quiet.is_valid());
    assert_eq!(quiet.piece_src(), H_PAWN);
    assert_eq!(quiet.piece_dst(), H_PAWN);
    assert_eq!(quiet.piece_captured(), NO_PIECE);

    let drop = Move::new_drop(SILVER, SQ_55());
    let udrop = UndoableMove::from_move_drop(drop);
    assert!(udrop.is_valid());
    assert!(udrop.is_drop());
    assert_eq!(udrop.dropped_piece_kind(), SILVER);
    assert_eq!(udrop.dst(), SQ_55());
    assert_eq!(udrop.to_move(), drop);

    // The take-back mark is not kept.
    let marked = UndoableMove::from_move_drop(Move::new_matta(drop));
    assert_eq!(marked, udrop);
    // A piece does not take one of its own side, and no king is taken.
    assert!(!UndoableMove::from_move_walk(Move::new_walk(SQ_77(), SQ_76()), H_PAWN, H_SILVER)
        .is_valid());
    assert!(!UndoableMove::from_move_walk(
        Move::new_walk(SQ_77(), SQ_76()),
        H_PAWN,
        naitou_shogi::piece::C_KING
    )
    .is_valid());
    assert!(UndoableMove::from_move_walk(Move::new_walk(SQ_77(), SQ_76()), H_PAWN, C_GOLD)
        .is_valid());
}

#[test]
fn test_sides_and_squares() {
    assert_eq!(HUM.inv(), COM);
    assert_eq!(COM.inv(), HUM);
    assert_eq!(HUM.inner(), 0);
    assert_eq!(COM.inner(), 1);
    assert_eq!(Side::iter(), [HUM, COM]);
    assert_eq!(SQ_11(), Square(0));
    assert_eq!(SQ_99(), Square(80));
    assert_eq!(SQ_55().col().inner(), 4);
    assert_eq!(SQ_55().row().inner(), 4);
    assert_eq!(SQ_76().col().inner(), 6);
    assert_eq!(SQ_76().row().inner(), 5);
    assert!(SQ_99().is_on_board());
    assert!(!Square(81).is_on_board());
    assert!(!Square(-1).is_on_board());
    assert_eq!(Square::iter().len(), 81);
}

#[test]
fn test_kinds_and_pieces() {
    assert_eq!(PAWN.to_promoted(), PRO_PAWN);
    assert_eq!(BISHOP.to_promoted(), HORSE);
    assert_eq!(ROOK.to_promoted(), DRAGON);
    assert_eq!(PRO_PAWN.to_raw(), PAWN);
    assert_eq!(DRAGON.to_raw(), ROOK);
    assert_eq!(GOLD.to_raw(), GOLD);
    assert!(PAWN.is_promotable() && ROOK.is_promotable());
    assert!(!GOLD.is_promotable() && !KING.is_promotable() && !HORSE.is_promotable());
    assert!(HORSE.is_promoted() && !GOLD.is_promoted());
    assert!(GOLD.is_hand() && !KING.is_hand() && !PRO_PAWN.is_hand() && !NO_PIECE_KIND.is_hand());
    assert!(LANCE.has_ranged_effect() && BISHOP.has_ranged_effect() && DRAGON.has_ranged_effect());
    assert!(!KNIGHT.has_ranged_effect() && !KING.has_ranged_effect());
    assert!(!NO_PIECE_KIND.is_piece() && KING.is_piece());
    assert_eq!(PieceKind::iter_hand(), vec![PAWN, LANCE, KNIGHT, SILVER, BISHOP, ROOK, GOLD]);
    assert_eq!(PieceKind::iter_piece().len(), 14);

    assert_eq!(Piece::new(HUM, PAWN), H_PAWN);
    assert_eq!(Piece::new(COM, PAWN), C_PAWN);
    assert_eq!(C_PAWN.side(), COM);
    assert_eq!(C_PAWN.kind(), PAWN);
    assert_eq!(H_BISHOP.to_promoted(), H_HORSE);
    assert_eq!(H_HORSE.to_raw_kind(), BISHOP);
    assert_eq!(C_PAWN.inner(), H_PAWN.inner() + 16);
    assert_eq!(H_HORSE.inner(), H_BISHOP.inner() + 8);
    assert_eq!(Piece::from_inner(C_GOLD.inner()), C_GOLD);
    assert!(!NO_PIECE.is_piece());
}

#[test]
fn test_directions() {
    for d in [
        Direction::RU,
        Direction::R,
        Direction::RD,
        Direction::U,
        Direction::D,
        Direction::LU,
        Direction::L,
        Direction::LD,
    ] {
        assert_eq!(d.inv().inner(), 7 - d.inner());
        assert_eq!(d.inv().inv(), d);
        assert_eq!(Direction::from_inner(d.inner()), d);
        assert!(DirectionSet::from_direction(d).contains(d));
        assert!(!DirectionSet::from_direction(d).contains(d.inv()));
        assert_eq!(DirectionSet::from_direction(d).to_vec(), vec![d]);
    }
    assert_eq!(DirectionSet::all().to_vec().len(), 8);
    assert!(DirectionSet::empty().to_vec().is_empty());
}

#[test]
fn test_walled_squares_tell_when_the_board_is_left() {
    for sq in Square::iter() {
        let ww = SquareWithWall::from_square(sq);
        assert!(ww.is_on_board());
        assert_eq!(ww.to_square(), sq);
    }
    let corner = SquareWithWall::from_square(SQ_11());
    assert!(!corner.add_delta(Direction::U.to_sqww_delta()).is_on_board());
    assert!(!corner.add_delta(Direction::R.to_sqww_delta()).is_on_board());
    assert!(!corner.add_delta(Direction::RU.to_sqww_delta()).is_on_board());
    assert_eq!(corner.add_delta(Direction::D.to_sqww_delta()).to_square(), Square(1));
    assert_eq!(corner.add_delta(Direction::L.to_sqww_delta()).to_square(), Square(9));
    assert_eq!(corner.add_delta(Direction::LD.to_sqww_delta()).to_square(), SQ_22());
    let mut ww = SquareWithWall::from_square(SQ_11());
    let mut steps = 0;
    while ww.add_delta(Direction::LD.to_sqww_delta()).is_on_board() {
        ww = ww.add_delta(Direction::LD.to_sqww_delta());
        steps += 1;
    }
    assert_eq!(steps, 8);
    assert_eq!(ww.to_square(), SQ_99());
}

#[test]
fn test_running_minimum_and_maximum() {
    let mut lo = 10u8;
    assert!(!chmin(&mut lo, 10));
    assert!(!chmin(&mut lo, 11));
    assert_eq!(lo, 10);
    assert!(chmin(&mut lo, 3));
    assert_eq!(lo, 3);
    let mut hi = 10u8;
    assert!(!chmax(&mut hi, 10));
    assert!(!chmax(&mut hi, 9));
    assert_eq!(hi, 10);
    assert!(chmax(&mut hi, 200));
    assert_eq!(hi, 200);
}

#[test]
fn test_wrapping_assignments() {
    let mut x = 250u8;
    x.wrapping_add_assign(10);
    assert_eq!(x, 4);
    x.wrapping_sub_assign(5);
    assert_eq!(x, 255);
    x.wrapping_add_assign(1);
    assert_eq!(x, 0);
    x.wrapping_sub_assign(0);
    assert_eq!(x, 0);
}

#[test]
fn test_for_each_direction() {
    let set = DirectionSet::from_direction(Direction::LD)
        .or(DirectionSet::from_direction(Direction::RU))
        .or(DirectionSet::from_direction(Direction::D));
    let seen = std::cell::RefCell::new(vec![]);
    set.for_each(|d| seen.borrow_mut().push(d));
    assert_eq!(seen.into_inner(), vec![Direction::RU, Direction::D, Direction::LD]);
    let none = std::cell::RefCell::new(Vec::<Direction>::new());
    DirectionSet::empty().for_each(|d| none.borrow_mut().push(d));
    assert!(none.into_inner().is_empty());
}
