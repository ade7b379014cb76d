use core::cmp::Ordering;
use naitou_shogi::naitou::{
    naitou_attacker, naitou_com_drop_src_value, naitou_piece_from_value, naitou_piece_price_a,
    naitou_piece_price_b, naitou_piece_price_c, naitou_piece_price_d, naitou_square_distance,
    naitou_square_from_value, naitou_square_to_value, naitou_squares, Handicap,
};
use naitou_shogi::order::naitou_square_cmp;
use naitou_shogi::piece::{
    BISHOP, C_KING, C_PAWN, C_PRO_PAWN, DRAGON, GOLD, HORSE, H_DRAGON, H_KING, H_PAWN, KING,
    KNIGHT, LANCE, NO_PIECE, NO_PIECE_KIND, PAWN, PRO_KNIGHT, PRO_LANCE, PRO_PAWN, PRO_SILVER,
    ROOK, SILVER,
};
use naitou_shogi::position::Position;
use naitou_shogi::sfen::decode::sfen_decode_position;
use naitou_shogi::shogi::{Square, COM, HUM};
use naitou_shogi::shogi::{
    SQ_11, SQ_16, SQ_19, SQ_33, SQ_55, SQ_58, SQ_77, SQ_81, SQ_91, SQ_92, SQ_99,
};

#[test]
fn test_square_values() {
    assert_eq!(naitou_square_to_value(SQ_91()), 12);
    assert_eq!(naitou_square_to_value(SQ_81()), 13);
    assert_eq!(naitou_square_to_value(SQ_11()), 20);
    assert_eq!(naitou_square_to_value(SQ_92()), 23);
    assert_eq!(naitou_square_to_value(SQ_55()), 60);
    assert_eq!(naitou_square_to_value(SQ_19()), 108);
    assert_eq!(naitou_square_from_value(99), None);
    for sq in Square::iter() {
        assert_eq!(naitou_square_from_value(naitou_square_to_value(sq)), Some(sq));
    }
}

#[test]
fn test_square_order() {
    assert_eq!(naitou_square_cmp(SQ_91(), SQ_81()), Ordering::Less);
    assert_eq!(naitou_square_cmp(SQ_11(), SQ_92()), Ordering::Less);
    assert_eq!(naitou_square_cmp(SQ_19(), SQ_11()), Ordering::Greater);
    assert_eq!(naitou_square_cmp(SQ_55(), SQ_55()), Ordering::Equal);
}

#[test]
fn test_squares_in_scan_order() {
    let sqs = naitou_squares();
    assert_eq!(sqs.len(), 81);
    assert_eq!(sqs[0], SQ_91());
    assert_eq!(sqs[1], SQ_81());
    assert_eq!(sqs[8], SQ_11());
    assert_eq!(sqs[9], SQ_92());
    assert_eq!(sqs[80], SQ_19());
    for pair in sqs.windows(2) {
        assert_eq!(naitou_square_cmp(pair[0], pair[1]), Ordering::Less);
    }
}

#[test]
fn test_console_square_distance() {
    assert_eq!(naitou_square_distance(Some(SQ_55()), SQ_11()), 4);
    assert_eq!(naitou_square_distance(Some(SQ_55()), SQ_55()), 0);
    assert_eq!(naitou_square_distance(Some(SQ_91()), SQ_19()), 8);
    // No square counts as the square left of 9i.
    assert_eq!(naitou_square_distance(None, SQ_99()), 1);
    assert_eq!(naitou_square_distance(None, SQ_19()), 9);
    assert_eq!(naitou_square_distance(None, SQ_91()), 8);
    assert_eq!(naitou_square_distance(None, SQ_55()), 5);
}

#[test]
fn test_piece_values() {
    assert_eq!(naitou_piece_from_value(0), Some(NO_PIECE));
    assert_eq!(naitou_piece_from_value(1), Some(H_KING));
    assert_eq!(naitou_piece_from_value(8), Some(H_PAWN));
    assert_eq!(naitou_piece_from_value(9), Some(H_DRAGON));
    assert_eq!(naitou_piece_from_value(16), Some(C_KING));
    assert_eq!(naitou_piece_from_value(23), Some(C_PAWN));
    assert_eq!(naitou_piece_from_value(30), Some(C_PRO_PAWN));
    assert_eq!(naitou_piece_from_value(11), None);
    assert_eq!(naitou_piece_from_value(26), None);
    assert_eq!(naitou_piece_from_value(31), None);
    assert_eq!(naitou_piece_from_value(255), None);
}

#[test]
fn test_piece_prices() {
    let kinds = [
        NO_PIECE_KIND, PAWN, LANCE, KNIGHT, SILVER, BISHOP, ROOK, GOLD, KING, PRO_PAWN, PRO_LANCE,
        PRO_KNIGHT, PRO_SILVER, HORSE, DRAGON,
    ];
    let a = [255, 1, 4, 4, 8, 16, 17, 8, 40, 2, 5, 6, 8, 20, 22];
    let b = [255, 1, 4, 4, 8, 16, 17, 8, 40, 8, 8, 8, 8, 20, 22];
    let c = [255, 1, 4, 4, 8, 16, 17, 8, 40, 2, 8, 8, 8, 20, 22];
    let d = [255, 1, 4, 4, 8, 16, 17, 8, 40, 1, 4, 4, 8, 20, 22];
    for (i, pk) in kinds.into_iter().enumerate() {
        // Only the promoted minor pieces are priced differently.
        if !(9..=12).contains(&i) {
            assert_eq!(a[i], b[i]);
            assert_eq!(b[i], c[i]);
            assert_eq!(c[i], d[i]);
        }
        assert_eq!(naitou_piece_price_a(pk), a[i]);
        assert_eq!(naitou_piece_price_b(pk), b[i]);
        assert_eq!(naitou_piece_price_c(pk), c[i]);
        assert_eq!(naitou_piece_price_d(pk), d[i]);
    }
}

#[test]
fn test_drop_origin_values() {
    assert_eq!(naitou_com_drop_src_value(PAWN), 201);
    assert_eq!(naitou_com_drop_src_value(LANCE), 202);
    assert_eq!(naitou_com_drop_src_value(KNIGHT), 203);
    assert_eq!(naitou_com_drop_src_value(SILVER), 204);
    assert_eq!(naitou_com_drop_src_value(GOLD), 205);
    assert_eq!(naitou_com_drop_src_value(BISHOP), 206);
    assert_eq!(naitou_com_drop_src_value(ROOK), 207);
}

#[test]
fn test_attacker_is_the_cheapest() {
    let (side, board, hands) = sfen_decode_position("startpos").unwrap();
    let pos = Position::new(side, board, hands);
    // King, golds and rook attack 5h: a gold is the cheapest.
    assert_eq!(naitou_attacker(&pos, HUM, SQ_58()), GOLD);
    // Bishop and knight attack 7g.
    assert_eq!(naitou_attacker(&pos, HUM, SQ_77()), KNIGHT);
    assert_eq!(naitou_attacker(&pos, COM, SQ_33()), KNIGHT);
    // The lance behind the pawn does not count.
    assert_eq!(naitou_attacker(&pos, HUM, SQ_16()), PAWN);
    assert_eq!(naitou_attacker(&pos, HUM, SQ_55()), NO_PIECE_KIND);
    assert_eq!(naitou_attacker(&pos, COM, SQ_58()), NO_PIECE_KIND);

    let (side, board, hands) = sfen_decode_position("sfen 4k4/9/9/9/9/9/9/9/4K4 b - 1").unwrap();
    let kings = Position::new(side, board, hands);
    assert_eq!(naitou_attacker(&kings, HUM, SQ_58()), KING);
}

#[test]
fn test_handicap_start_positions() {
    let all = [
        Handicap::HumSenteSikenbisha,
        Handicap::HumSenteNakabisha,
        Handicap::HumHishaochi,
        Handicap::HumNimaiochi,
        Handicap::ComSenteSikenbisha,
        Handicap::ComSenteNakabisha,
        Handicap::ComHishaochi,
        Handicap::ComNimaiochi,
    ];
    for handicap in all {
        let (side, board, hands) = handicap.startpos();
        let decoded = sfen_decode_position(handicap.sfen()).unwrap();
        assert_eq!((side, board.clone(), hands), decoded);
        assert_eq!(side, handicap.side_to_move());
        assert!(handicap.starts_with(side, &board));
        assert!(!handicap.starts_with(side.inv(), &board));
    }
    assert_eq!(Handicap::HumSenteSikenbisha.sfen(), "startpos");
    assert_eq!(Handicap::HumSenteSikenbisha.side_to_move(), HUM);
    assert_eq!(Handicap::HumNimaiochi.side_to_move(), HUM);
    assert_eq!(Handicap::ComSenteNakabisha.side_to_move(), COM);
    assert_eq!(Handicap::ComNimaiochi.side_to_move(), COM);
}

#[test]
fn test_handicap_from_startpos() {
    let (side, board, hands) = Handicap::HumSenteSikenbisha.startpos();
    assert_eq!(
        Handicap::from_startpos(side, &board, &hands, false),
        Ok(Handicap::HumSenteSikenbisha)
    );
    assert_eq!(
        Handicap::from_startpos(side, &board, &hands, true),
        Ok(Handicap::HumSenteNakabisha)
    );
    let (side, board, hands) = Handicap::ComNimaiochi.startpos();
    assert_eq!(Handicap::from_startpos(side, &board, &hands, false), Ok(Handicap::ComNimaiochi));
    assert_eq!(Handicap::from_startpos(side, &board, &hands, true), Ok(Handicap::ComNimaiochi));
    let (side, board, hands) = sfen_decode_position("sfen 4k4/9/9/9/9/9/9/9/4K4 b - 1").unwrap();
    assert!(Handicap::from_startpos(side, &board, &hands, false).is_err());
    let (side, board, hands) = sfen_decode_position(
        "sfen lnsgkgsnl/1r5b1/ppppppppp/9/9/9/PPPPPPPPP/1B5R1/LNSGKGSNL b P 1",
    )
    .unwrap();
    assert!(Handicap::from_startpos(side, &board, &hands, false).is_err());
}
