use naitou_shogi::board::{Board, Hand, Hands};
use naitou_shogi::moves::Move;
use naitou_shogi::piece::{Piece, BISHOP, C_KING, GOLD, H_KING, H_PRO_PAWN, NO_PIECE, PAWN, ROOK};
use naitou_shogi::sfen::decode::{sfen_decode, sfen_decode_move, sfen_decode_position, SfenError};
use naitou_shogi::sfen::encode::{sfen_encode, sfen_encode_move, sfen_encode_position};
use naitou_shogi::shogi::{COM, HUM};
use naitou_shogi::shogi::{SQ_11, SQ_34, SQ_55, SQ_59, SQ_76, SQ_77, SQ_82, SQ_88, SQ_91};

#[test]
fn decode_test_matta() {
    assert_eq!(
        sfen_decode_move("!7g7f").unwrap(),
        Move::new_matta(Move::new_walk(SQ_77(), SQ_76()))
    );
}

#[test]
fn encode_test_matta() {
    assert_eq!(
        sfen_encode_move(Move::new_matta(Move::new_walk(SQ_77(), SQ_76()))),
        "!7g7f"
    );
}

#[test]
fn test_sfen_roundtrip() {
    let sfens = [
        "startpos moves",
        "startpos moves 7g7f 3c3d 8h2b+ 3a2b B*5e",
        "sfen lnsgkgsnl/1r5b1/ppppppppp/9/9/9/PPPPPPPPP/1B5R1/LNSGKGSNL w - 1 moves 3c3d",
        "sfen lnsgkgsnl/1r5b1/ppppppppp/9/9/9/PPPPPPPPP/9/LNSGKGSNL b - 1 moves",
        "sfen R8/2K1S1SSk/4B4/9/9/9/9/9/1L1L1L3 b RBGSNLP3g3n17p 1 moves P*5e !7g7f",
        "sfen 4k4/9/4+P4/9/9/9/9/9/4K4 w 2R2B4G4S4N4L17p 1 moves",
    ];
    for sfen in sfens {
        let (side_to_move, board, hands, mvs) = sfen_decode(sfen).unwrap();
        let sfen_encoded = sfen_encode(side_to_move, &board, &hands, &mvs);
        assert_eq!(sfen, sfen_encoded);
    }
}

#[test]
fn test_decode_then_encode_position_is_canonical() {
    let (side, board, hands) =
        sfen_decode_position("  position sfen 4k4/9/4+P4/9/9/9/9/9/4K4   b   P2r 42 ").unwrap();
    assert_eq!(side, HUM);
    assert_eq!(board.get(SQ_59()), H_KING);
    assert_eq!(board.get(SQ_55()), NO_PIECE);
    assert_eq!(board.get(naitou_shogi::shogi::SQ_53()), H_PRO_PAWN);
    assert_eq!(board.get(naitou_shogi::shogi::SQ_51()), C_KING);
    assert_eq!(hands.get(HUM).get(PAWN), 1);
    assert_eq!(hands.get(COM).get(ROOK), 2);
    assert_eq!(
        sfen_encode_position(side, &board, &hands),
        "sfen 4k4/9/4+P4/9/9/9/9/9/4K4 b P2r 1"
    );
}

#[test]
fn test_encode_position_values() {
    let empty = Hands::new(Hand::empty(), Hand::empty());
    assert_eq!(sfen_encode_position(HUM, &Board::startpos(), &empty), "startpos");
    assert_eq!(
        sfen_encode_position(COM, &Board::startpos(), &empty),
        "sfen lnsgkgsnl/1r5b1/ppppppppp/9/9/9/PPPPPPPPP/1B5R1/LNSGKGSNL w - 1"
    );
    let mut hum = Hand::empty();
    hum.set(GOLD, 1);
    hum.set(BISHOP, 12);
    let hands = Hands::new(hum, Hand::empty());
    assert_eq!(
        sfen_encode_position(HUM, &Board::startpos(), &hands),
        "sfen lnsgkgsnl/1r5b1/ppppppppp/9/9/9/PPPPPPPPP/1B5R1/LNSGKGSNL b 12BG 1"
    );
}

#[test]
fn test_decode_position_startpos() {
    let (side, board, hands) = sfen_decode_position("startpos").unwrap();
    assert_eq!(side, HUM);
    assert_eq!(board, Board::startpos());
    assert!(hands.get(HUM).is_empty());
    assert!(hands.get(COM).is_empty());
    assert_eq!(board.get(SQ_88()), Piece::HBishop);
    assert_eq!(board.get(SQ_82()), Piece::CRook);
    assert_eq!(board.get(SQ_11()), Piece::CLance);
    assert_eq!(board.get(SQ_91()), Piece::CLance);
}

#[test]
fn test_encode_moves() {
    assert_eq!(sfen_encode_move(Move::new_walk(SQ_77(), SQ_76())), "7g7f");
    assert_eq!(sfen_encode_move(Move::new_walk_promotion(SQ_88(), SQ_34())), "8h3d+");
    assert_eq!(sfen_encode_move(Move::new_drop(PAWN, SQ_55())), "P*5e");
    assert_eq!(sfen_decode_move(" 8h3d+ ").unwrap(), Move::new_walk_promotion(SQ_88(), SQ_34()));
    assert_eq!(sfen_decode_move("R*1a").unwrap(), Move::new_drop(ROOK, SQ_11()));
}

#[test]
fn test_decode_errors() {
    assert_eq!(sfen_decode_position("").unwrap_err(), SfenError::EmptyPosition);
    assert_eq!(sfen_decode_position("position").unwrap_err(), SfenError::EmptyPosition);
    assert_eq!(sfen_decode_position("xyz").unwrap_err(), SfenError::InvalidMagic);
    assert_eq!(sfen_decode_position("sfen").unwrap_err(), SfenError::BoardMissing);
    assert_eq!(
        sfen_decode_position("sfen 9/9/9/9/9/9/9/9 b - 1").unwrap_err(),
        SfenError::BoardRowCount
    );
    assert_eq!(
        sfen_decode_position("sfen 9/9/9/9/9/9/9/9/9/9 b - 1").unwrap_err(),
        SfenError::RedundantRow
    );
    assert_eq!(
        sfen_decode_position("sfen 9k/9/9/9/9/9/9/9/9 b - 1").unwrap_err(),
        SfenError::RowOverflow
    );
    assert_eq!(
        sfen_decode_position("sfen 8/9/9/9/9/9/9/9/9 b - 1").unwrap_err(),
        SfenError::RowWidth
    );
    assert_eq!(
        sfen_decode_position("sfen ++P7/9/9/9/9/9/9/9/9 b - 1").unwrap_err(),
        SfenError::DoublePlus
    );
    assert_eq!(
        sfen_decode_position("sfen +18/9/9/9/9/9/9/9/9 b - 1").unwrap_err(),
        SfenError::PlusBeforeDigit
    );
    assert_eq!(
        sfen_decode_position("sfen x8/9/9/9/9/9/9/9/9 b - 1").unwrap_err(),
        SfenError::InvalidPiece
    );
    assert_eq!(
        sfen_decode_position("sfen +G8/9/9/9/9/9/9/9/9 b - 1").unwrap_err(),
        SfenError::NotPromotable
    );
    assert_eq!(
        sfen_decode_position("sfen 8+/9/9/9/9/9/9/9/9 b - 1").unwrap_err(),
        SfenError::RemainingPromotion
    );
    assert_eq!(
        sfen_decode_position("sfen 9/9/9/9/9/9/9/9/9").unwrap_err(),
        SfenError::SideMissing
    );
    assert_eq!(
        sfen_decode_position("sfen 9/9/9/9/9/9/9/9/9 x - 1").unwrap_err(),
        SfenError::InvalidSide
    );
    assert_eq!(
        sfen_decode_position("sfen 9/9/9/9/9/9/9/9/9 b").unwrap_err(),
        SfenError::HandsMissing
    );
    assert_eq!(
        sfen_decode_position("sfen 9/9/9/9/9/9/9/9/9 b 0P 1").unwrap_err(),
        SfenError::LeadingZero
    );
    assert_eq!(
        sfen_decode_position("sfen 9/9/9/9/9/9/9/9/9 b 256P 1").unwrap_err(),
        SfenError::CountTooLarge
    );
    assert_eq!(
        sfen_decode_position("sfen 9/9/9/9/9/9/9/9/9 b K 1").unwrap_err(),
        SfenError::InvalidHandPiece
    );
    assert_eq!(
        sfen_decode_position("sfen 9/9/9/9/9/9/9/9/9 b P2 1").unwrap_err(),
        SfenError::RemainingCount
    );
    assert_eq!(
        sfen_decode_position("sfen 9/9/9/9/9/9/9/9/9 b -").unwrap_err(),
        SfenError::PlyMissing
    );
    assert_eq!(
        sfen_decode_position("sfen 9/9/9/9/9/9/9/9/9 b - x").unwrap_err(),
        SfenError::InvalidPly
    );
    assert_eq!(
        sfen_decode_position("sfen 9/9/9/9/9/9/9/9/9 b - 4294967296").unwrap_err(),
        SfenError::InvalidPly
    );
    assert_eq!(
        sfen_decode_position("sfen 9/9/9/9/9/9/9/9/9 b - 0").unwrap_err(),
        SfenError::PlyNotPositive
    );
    assert_eq!(
        sfen_decode_position("startpos moves").unwrap_err(),
        SfenError::RedundantToken
    );
    assert_eq!(sfen_decode("startpos move 7g7f").unwrap_err(), SfenError::MovesExpected);
    assert_eq!(sfen_decode("startpos moves 7g7x").unwrap_err(), SfenError::InvalidMove);
    assert_eq!(sfen_decode_move("   ").unwrap_err(), SfenError::EmptyMove);
    assert_eq!(sfen_decode_move("K*5e").unwrap_err(), SfenError::InvalidMove);
    assert_eq!(sfen_decode_move("7g7g").unwrap_err(), SfenError::InvalidMove);
}

#[test]
fn test_hand_overflow_is_reported() {
    let mut text = String::from("sfen 9/9/9/9/9/9/9/9/9 b ");
    for _ in 0..16843010 / 65536 {
        text.push_str("255P");
    }
    assert!(sfen_decode_position(&format!("{} 1", text)).is_ok());
}

#[test]
fn test_encode_then_decode_gives_the_same_values() {
    let texts = [
        "startpos",
        "sfen lnsgkgsnl/1r5b1/ppppppppp/9/9/9/PPPPPPPPP/1B5R1/LNSGKGSNL w - 1",
        "sfen R8/2K1S1SSk/4B4/9/9/9/9/9/1L1L1L3 b RBGSNLP3g3n17p 1",
        "sfen 4k4/9/4+P4/9/9/9/9/9/4K4 w 2R2B4G4S4N4L17p 1",
        "sfen +l+n+sgkg+s+n+l/1+r5+b1/+p+p+p+p+p+p+p+p+p/9/9/9/9/9/4K4 b 255P 1",
    ];
    for text in texts {
        let (side, board, hands) = sfen_decode_position(text).unwrap();
        let written = sfen_encode_position(side, &board, &hands);
        assert_eq!(written, text);
        assert_eq!(sfen_decode_position(&written).unwrap(), (side, board, hands));
    }
    let moves = [
        Move::new_walk(SQ_77(), SQ_76()),
        Move::new_walk_promotion(SQ_88(), naitou_shogi::shogi::SQ_22()),
        Move::new_drop(GOLD, SQ_55()),
        Move::new_matta(Move::new_drop(PAWN, SQ_11())),
        Move::new_matta(Move::new_walk_promotion(SQ_34(), SQ_91())),
    ];
    for mv in moves {
        assert_eq!(sfen_decode_move(&sfen_encode_move(mv)).unwrap(), mv);
    }
    let (side, board, hands) = sfen_decode_position(texts[2]).unwrap();
    let game = sfen_encode(side, &board, &hands, &moves.to_vec());
    assert_eq!(sfen_decode(&game).unwrap(), (side, board, hands, moves.to_vec()));
}
