use naitou_shogi::board::{Board, Hands};
use naitou_shogi::moves::{Move, UndoableMove};
use naitou_shogi::piece::{
    BISHOP, C_BISHOP, C_PAWN, H_BISHOP, H_HORSE, H_PAWN, H_ROOK, NO_PIECE, PAWN, ROOK,
};
use naitou_shogi::position::Position;
use naitou_shogi::sfen::decode::{sfen_decode_move, sfen_decode_position};
use naitou_shogi::shogi::{Square, COM, HUM};
use naitou_shogi::shogi::{
    SQ_11, SQ_14, SQ_16, SQ_22, SQ_28, SQ_33, SQ_51, SQ_55, SQ_56, SQ_58, SQ_59, SQ_76, SQ_77,
    SQ_88, SQ_94, SQ_96,
};
use naitou_shogi::validity::is_buildable;

fn position_of(sfen: &str) -> Position {
    let (side_to_move, board, hands) = sfen_decode_position(sfen).unwrap();
    assert!(is_buildable(&board, &hands));
    Position::new(side_to_move, board, hands)
}

fn play(pos: &mut Position, s: &str) -> UndoableMove {
    let mv: Move = sfen_decode_move(s).unwrap();
    assert!(pos.is_playable(mv), "{} cannot be played", s);
    pos.do_move(mv)
}

/// The occupancy sets split the board as the pieces do.
fn assert_occupancy(pos: &Position) {
    let all = pos.bb_occupied();
    let hum = pos.bb_occupied_side(HUM);
    let com = pos.bb_occupied_side(COM);
    assert_eq!(all, hum.or(com));
    assert!(hum.and(com).is_zero());
    let mut kinds = naitou_shogi::bitboard::Bitboard::zero();
    for pk in naitou_shogi::piece::PieceKind::iter_piece() {
        let bb = pos.bb_piece_kind(pk);
        assert!(kinds.and(bb).is_zero());
        kinds = kinds.or(bb);
    }
    assert_eq!(all, kinds);
}

#[test]
fn test_startpos_is_consistent() {
    let pos = position_of("startpos");
    assert!(pos.is_consistent());
    assert_occupancy(&pos);
    assert_eq!(pos.ply(), 1);
    assert_eq!(pos.side_to_move(), HUM);
    assert_eq!(pos.king_square(HUM), SQ_59());
    assert_eq!(pos.king_square(COM), SQ_51());
    assert_eq!(pos.com_nonking_count(), 19);
    assert_eq!(pos.bb_occupied().count_ones(), 40);
}

#[test]
fn test_startpos_effect_counts() {
    let pos = position_of("startpos");
    // King, two golds and the rook along the rank.
    assert_eq!(pos.effect_count(HUM, SQ_58()), 4);
    // A pawn alone.
    assert_eq!(pos.effect_count(HUM, SQ_56()), 1);
    // A pawn, and the lance behind it through the pawn.
    assert_eq!(pos.effect_count(HUM, SQ_16()), 2);
    assert_eq!(pos.effect_count(HUM, SQ_96()), 2);
    assert_eq!(pos.effect_count(COM, SQ_14()), 2);
    assert_eq!(pos.effect_count(COM, SQ_94()), 2);
    // Nothing reaches the middle.
    assert_eq!(pos.effect_count(HUM, SQ_55()), 0);
    assert_eq!(pos.effect_count(COM, SQ_55()), 0);
    // The bishop next to it, and the knight that jumps there.
    assert_eq!(pos.effect_count(HUM, SQ_77()), 2);
    assert_eq!(pos.effect_count(COM, SQ_33()), 2);
}

#[test]
fn test_do_move_then_undo_move_restores_everything() {
    let mut pos = position_of("startpos");
    let line = ["7g7f", "3c3d", "8h2b+", "3a2b", "B*5e", "B*3c", "5e3c+", "2b3c", "2h5h"];
    let mut trail: Vec<(Position, UndoableMove)> = Vec::new();

    for s in line {
        let before = pos.copy();
        let umv = play(&mut pos, s);
        assert!(pos.is_consistent(), "after {}", s);
        assert_occupancy(&pos);
        assert!(pos.is_undoable(umv));
        assert!(!pos.same(&before));
        trail.push((before, umv));
    }
    assert_eq!(pos.ply(), 10);
    assert_eq!(pos.side_to_move(), COM);

    while let Some((before, umv)) = trail.pop() {
        pos.undo_move(umv);
        assert!(pos.same(&before));
        assert!(pos.is_consistent());
    }
    assert!(pos.same(&position_of("startpos")));
}

#[test]
fn test_capture_with_promotion_fills_the_hand() {
    let mut pos = position_of("startpos");
    play(&mut pos, "7g7f");
    play(&mut pos, "3c3d");
    let umv = play(&mut pos, "8h2b+");

    assert_eq!(pos.board().get(SQ_22()), H_HORSE);
    assert_eq!(pos.board().get(SQ_88()), NO_PIECE);
    assert_eq!(pos.hand(HUM).get(BISHOP), 1);
    assert_eq!(pos.com_nonking_count(), 18);
    assert_eq!(umv.piece_src(), H_BISHOP);
    assert_eq!(umv.piece_captured(), C_BISHOP);
    assert_eq!(umv.piece_dst(), H_HORSE);
    assert!(umv.is_promotion());
    assert_eq!(umv.to_move(), sfen_decode_move("8h2b+").unwrap());

    pos.undo_move(umv);
    assert_eq!(pos.board().get(SQ_22()), C_BISHOP);
    assert_eq!(pos.board().get(SQ_88()), H_BISHOP);
    assert_eq!(pos.hand(HUM).get(BISHOP), 0);
    assert_eq!(pos.com_nonking_count(), 19);
}

#[test]
fn test_drop_takes_from_the_hand() {
    let mut pos = position_of("sfen 4k4/9/9/9/9/9/9/9/4K4 b RP2p 1");
    assert_eq!(pos.com_nonking_count(), 2);
    let umv = play(&mut pos, "R*5e");
    assert_eq!(pos.board().get(SQ_55()), H_ROOK);
    assert_eq!(pos.hand(HUM).get(ROOK), 0);
    assert_eq!(pos.hand(HUM).get(PAWN), 1);
    assert!(umv.is_drop());
    assert!(pos.is_checked(COM));
    assert!(pos.is_consistent());
    // The rook's file: four squares up to the king, four down to the king.
    assert_eq!(pos.effect_count(HUM, SQ_51()), 1);
    assert_eq!(pos.effect_count(HUM, SQ_59()), 1);
    pos.undo_move(umv);
    assert_eq!(pos.board().get(SQ_55()), NO_PIECE);
    assert_eq!(pos.hand(HUM).get(ROOK), 1);
    assert!(!pos.is_checked(COM));
}

#[test]
fn test_a_move_opens_and_shuts_rays() {
    let mut pos = position_of("startpos");
    assert_eq!(pos.effect_count(HUM, SQ_33()), 0);
    play(&mut pos, "7g7f");
    // The bishop now looks down its diagonal as far as the pawn on 3c.
    assert_eq!(pos.effect_count(HUM, SQ_77()), 2);
    assert_eq!(pos.effect_count(HUM, SQ_55()), 1);
    assert_eq!(pos.effect_count(HUM, SQ_33()), 1);
    assert_eq!(pos.effect_count(HUM, SQ_22()), 0);
    play(&mut pos, "3c3d");
    // Both bishops see each other.
    assert_eq!(pos.effect_count(HUM, SQ_22()), 1);
    assert_eq!(pos.effect_count(COM, SQ_88()), 1);
    assert_eq!(pos.effect_count(COM, SQ_77()), 1);
    assert_eq!(pos.effect_count(HUM, SQ_33()), 1);
    assert!(pos.is_consistent());
}

#[test]
fn test_is_checked_means_the_king_can_be_taken() {
    // The rook on 5e attacks the king on 5a.
    let pos = position_of("sfen 4k4/9/9/9/4R4/9/9/9/4K4 w - 1");
    assert!(pos.is_checked(COM));
    assert!(!pos.is_checked(HUM));
    let turned = position_of("sfen 4k4/9/9/9/4R4/9/9/9/4K4 b - 1");
    let take_king = sfen_decode_move("5e5a").unwrap();
    // The move to the king's square is one that the pieces allow; it cannot be played.
    let all = naitou_shogi::movegen::general::generate_moves(&turned);
    assert!(all.to_vec().contains(&take_king));
    assert!(!turned.is_playable(take_king));

    let quiet = position_of("sfen 4k4/4p4/9/9/4R4/9/9/9/4K4 w - 1");
    assert!(!quiet.is_checked(COM));
    let quiet_turned = position_of("sfen 4k4/4p4/9/9/4R4/9/9/9/4K4 b - 1");
    let all = naitou_shogi::movegen::general::generate_moves(&quiet_turned);
    assert!(!all.to_vec().contains(&take_king));
}

#[test]
fn test_is_playable_refuses_what_the_board_does_not_allow() {
    let pos = position_of("startpos");
    assert!(pos.is_playable(Move::new_walk(SQ_77(), SQ_76())));
    // No piece of the side to move on the origin.
    assert!(!pos.is_playable(Move::new_walk(SQ_76(), SQ_55())));
    assert!(!pos.is_playable(Move::new_walk(SQ_33(), SQ_14())));
    // Own piece on the destination.
    assert!(!pos.is_playable(Move::new_walk(SQ_88(), SQ_77())));
    // Nothing in hand.
    assert!(!pos.is_playable(Move::new_drop(PAWN, SQ_55())));
    // A gold cannot promote.
    assert!(!pos.is_playable(Move::new_walk_promotion(Square(53), Square(52))));
    assert_eq!(pos.board().get(SQ_28()), H_ROOK);
    assert_eq!(pos.board().get(SQ_11()), naitou_shogi::piece::C_LANCE);
    assert_eq!(pos.board().get(SQ_77()), H_PAWN);
    assert_eq!(pos.board().get(SQ_33()), C_PAWN);
}

#[test]
fn test_is_buildable_wants_one_king_each() {
    let (_, board, hands) = sfen_decode_position("sfen 4k4/9/9/9/9/9/9/9/4K4 b - 1").unwrap();
    assert!(is_buildable(&board, &hands));
    let (_, no_com_king, _) = sfen_decode_position("sfen 9/9/9/9/9/9/9/9/4K4 b - 1").unwrap();
    assert!(!is_buildable(&no_com_king, &hands));
    let (_, two_kings, _) = sfen_decode_position("sfen 4k4/9/9/9/9/9/9/9/3KK4 b - 1").unwrap();
    assert!(!is_buildable(&two_kings, &hands));
    assert!(!is_buildable(&Board::empty(), &Hands::empty()));
}

#[test]
fn test_is_consistent_sees_a_wrong_count() {
    let mut pos = position_of("startpos");
    assert!(pos.is_consistent());
    pos.com_nonking_count = 18;
    assert!(!pos.is_consistent());
    pos.com_nonking_count = 19;
    assert!(pos.is_consistent());
    pos.ply = 0;
    assert!(!pos.is_consistent());
}

#[test]
fn test_update_effect_follows_one_square() {
    let (side, mut board, hands) = sfen_decode_position("startpos").unwrap();
    let pos = Position::new(side, board.clone(), hands);
    let mut hum = pos.effect_count_board(HUM).0;
    let mut com = pos.effect_count_board(COM).0;
    let mut rays = pos.ranged_effects.0;

    // A rook of HUM appears on 5e, then turns into a bishop of COM, then leaves.
    let steps = [(NO_PIECE, H_ROOK), (H_ROOK, C_BISHOP), (C_BISHOP, NO_PIECE)];
    for (was, now) in steps {
        board.set(SQ_55(), now);
        naitou_shogi::effect_update::update_effect(
            &board, SQ_55(), was, now, &mut hum, &mut com, &mut rays,
        );
        let fresh = Position::new(side, board.clone(), hands);
        assert_eq!(hum, fresh.effect_count_board(HUM).0);
        assert_eq!(com, fresh.effect_count_board(COM).0);
        assert_eq!(rays, fresh.ranged_effects.0);
    }
    assert_eq!(hum, pos.effect_count_board(HUM).0);
    assert_eq!(com, pos.effect_count_board(COM).0);
}

/// Plays every move of every position up to `depth` moves deep, and looks
/// after each move and each take-back whether the position is what a new
/// count gives.
fn walk_all(pos: &mut Position, depth: u32) -> u64 {
    if depth == 0 {
        return 1;
    }
    let mut n = 0;
    let before = pos.copy();
    for mv in naitou_shogi::movegen::general::generate_moves(pos).to_vec() {
        if !pos.is_playable(mv) {
            continue;
        }
        let umv = pos.do_move(mv);
        assert!(pos.is_consistent());
        assert!(pos.is_undoable(umv));
        n += walk_all(pos, depth - 1);
        pos.undo_move(umv);
        assert!(pos.same(&before));
    }
    n
}

fn walk_from(sfen: &str) {
    let mut pos = position_of(sfen);
    assert!(pos.is_consistent());
    assert!(walk_all(&mut pos, 2) > 0);
}

#[test]
fn test_counts_stay_right_in_a_middle_game() {
    walk_from("sfen ln1g1g1nl/1ks2r3/1pppp1bpp/p3spp2/9/P1P1P4/1P1PSPPPP/1BK1GS1R1/LN1G3NL b - 1");
}

#[test]
fn test_counts_stay_right_with_rays_and_drops() {
    walk_from("sfen 4k4/1r5b1/9/4p4/3RB4/4P4/9/1B5R1/4K4 w GSNLPgsnlp 1");
}

#[test]
fn test_counts_stay_right_with_many_moves() {
    walk_from("sfen R8/2K1S1SSk/4B4/9/9/9/9/9/1L1L1L3 b RBGSNLP3g3n17p 1");
}
