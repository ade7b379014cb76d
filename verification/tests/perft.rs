use naitou_shogi::perft::{perft, PerftStats};
use naitou_shogi::position::Position;
use naitou_shogi::sfen::decode::sfen_decode_position;

fn position_of(sfen: &str) -> Position {
    let (side_to_move, board, hands) = sfen_decode_position(sfen).unwrap();
    Position::new(side_to_move, board, hands)
}

#[test]
fn test_perft_startpos_shallow() {
    let mut pos = position_of("startpos");

    assert_eq!(
        perft(&mut pos, 1),
        PerftStats {
            count_all: 30,
            count_capture: 0,
            count_promote: 0,
            count_check: 0,
            count_checkmate: 0,
        }
    );

    assert_eq!(
        perft(&mut pos, 2),
        PerftStats {
            count_all: 900,
            count_capture: 0,
            count_promote: 0,
            count_check: 0,
            count_checkmate: 0,
        }
    );
}

#[test]
fn test_perft_startpos_depth3() {
    let mut pos = position_of("startpos");

    assert_eq!(
        perft(&mut pos, 3),
        PerftStats {
            count_all: 25470,
            count_capture: 59,
            count_promote: 30,
            count_check: 48,
            count_checkmate: 0,
        }
    );
}

#[test]
fn test_perft_max_moves_depth1() {
    let mut pos = position_of("sfen R8/2K1S1SSk/4B4/9/9/9/9/9/1L1L1L3 b RBGSNLP3g3n17p 1");

    assert_eq!(
        perft(&mut pos, 1),
        PerftStats {
            count_all: 593,
            count_capture: 0,
            count_promote: 52,
            count_check: 40,
            count_checkmate: 6,
        }
    );
}

#[test]
fn test_perft_depth0_counts_the_position() {
    let mut pos = position_of("startpos");

    assert_eq!(
        perft(&mut pos, 0),
        PerftStats {
            count_all: 1,
            count_capture: 0,
            count_promote: 0,
            count_check: 0,
            count_checkmate: 0,
        }
    );
}
