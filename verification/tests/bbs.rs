use naitou_shogi::bbs::{
    around25, bishop_effect, effect, gold_effect, king_effect, knight_effect, lance_effect,
    lance_step_effect, pawn_bb_effect, pawn_drop_mask, pawn_effect, rook_effect, silver_effect,
};
use naitou_shogi::bitboard::Bitboard;
use naitou_shogi::piece::{
    Piece, PieceKind, BISHOP, DRAGON, GOLD, HORSE, KING, KNIGHT, LANCE, PAWN, PRO_KNIGHT,
    PRO_LANCE, PRO_PAWN, PRO_SILVER, ROOK, SILVER,
};
use naitou_shogi::shogi::{Side, Square, COM, HUM};
use naitou_shogi::shogi::{
    SQ_11, SQ_12, SQ_13, SQ_14, SQ_15, SQ_18, SQ_19, SQ_21, SQ_22, SQ_23, SQ_25, SQ_29, SQ_32, SQ_34, SQ_35, SQ_36, SQ_37, SQ_41, SQ_42, SQ_43, SQ_44, SQ_45, SQ_49, SQ_51, SQ_52, SQ_53, SQ_54, SQ_55, SQ_56, SQ_57, SQ_58, SQ_59, SQ_61, SQ_62, SQ_63, SQ_64, SQ_65, SQ_66, SQ_67, SQ_68, SQ_69, SQ_71, SQ_72, SQ_73, SQ_74, SQ_75, SQ_76, SQ_77, SQ_78, SQ_79, SQ_81, SQ_82, SQ_83, SQ_84, SQ_85, SQ_86, SQ_87, SQ_88, SQ_89, SQ_91, SQ_92, SQ_93, SQ_94, SQ_95, SQ_96, SQ_97, SQ_98, SQ_99,
};

fn bb_from_sqs<I: IntoIterator<Item = Square>>(sqs: I) -> Bitboard {
    sqs.into_iter()
        .map(Bitboard::from)
        .reduce(std::ops::BitOr::bitor)
        .expect("sqs must be nonempty")
}

fn bb_from_ranges(ranges: &[(Square, Square)]) -> Bitboard {
    let mut sqs = vec![];
    for &(min, max) in ranges {
        sqs.extend(Square::iter_range(min, max));
    }
    bb_from_sqs(sqs)
}

#[test]
fn test_pawn_effect() {
    assert_eq!(pawn_effect(HUM, SQ_79()), Bitboard::from(SQ_78()));

    assert_eq!(pawn_effect(COM, SQ_81()), Bitboard::from(SQ_82()));
}

#[test]
fn test_lance_step_effect() {
    assert_eq!(
        lance_step_effect(HUM, SQ_89()),
        bb_from_sqs([SQ_88(), SQ_87(), SQ_86(), SQ_85(), SQ_84(), SQ_83(), SQ_82(), SQ_81()])
    );

    assert_eq!(
        lance_step_effect(HUM, SQ_45()),
        bb_from_sqs([SQ_44(), SQ_43(), SQ_42(), SQ_41()])
    );

    assert_eq!(
        lance_step_effect(COM, SQ_71()),
        bb_from_sqs([SQ_72(), SQ_73(), SQ_74(), SQ_75(), SQ_76(), SQ_77(), SQ_78(), SQ_79()])
    );

    assert_eq!(lance_step_effect(COM, SQ_18()), bb_from_sqs([SQ_19()]));
}

#[test]
fn test_lance_effect() {
    {
        let occ = bb_from_sqs([SQ_77(), SQ_74(), SQ_71()]);
        assert_eq!(lance_effect(HUM, SQ_76(), occ), bb_from_sqs([SQ_75(), SQ_74()]));
        assert_eq!(lance_effect(COM, SQ_75(), occ), bb_from_sqs([SQ_76(), SQ_77()]));
    }
    {
        let occ = bb_from_sqs([SQ_82(), SQ_88()]);
        assert_eq!(
            lance_effect(HUM, SQ_86(), occ),
            bb_from_sqs([SQ_85(), SQ_84(), SQ_83(), SQ_82()])
        );
        assert_eq!(lance_effect(COM, SQ_81(), occ), bb_from_sqs([SQ_82()]));
    }
}

#[test]
fn test_rook_effect() {
    let occ = bb_from_sqs([SQ_25(), SQ_61(), SQ_85(), SQ_67()]);
    assert_eq!(
        rook_effect(SQ_65(), occ),
        bb_from_sqs([
            SQ_55(), SQ_45(), SQ_35(), SQ_25(), SQ_64(), SQ_63(), SQ_62(), SQ_61(), SQ_66(), SQ_67(), SQ_75(), SQ_85()
        ])
    );
}

#[test]
fn test_bishop_effect() {
    let occ = bb_from_sqs([SQ_23(), SQ_81(), SQ_67(), SQ_36()]);
    assert_eq!(
        bishop_effect(SQ_45(), occ),
        bb_from_sqs([SQ_34(), SQ_23(), SQ_36(), SQ_54(), SQ_63(), SQ_72(), SQ_81(), SQ_56(), SQ_67()])
    );
}

#[test]
fn test_king_effect() {
    assert_eq!(
        king_effect(SQ_85()),
        bb_from_sqs([SQ_74(), SQ_75(), SQ_76(), SQ_84(), SQ_86(), SQ_94(), SQ_95(), SQ_96()])
    );

    assert_eq!(
        king_effect(SQ_79()),
        bb_from_sqs([SQ_68(), SQ_69(), SQ_78(), SQ_88(), SQ_89()])
    );

    assert_eq!(
        king_effect(SQ_81()),
        bb_from_sqs([SQ_71(), SQ_72(), SQ_82(), SQ_91(), SQ_92()])
    );
}

#[test]
fn test_gold_effect() {
    assert_eq!(
        gold_effect(HUM, SQ_85()),
        bb_from_sqs([SQ_74(), SQ_75(), SQ_84(), SQ_86(), SQ_94(), SQ_95()])
    );

    assert_eq!(
        gold_effect(COM, SQ_85()),
        bb_from_sqs([SQ_75(), SQ_76(), SQ_84(), SQ_86(), SQ_95(), SQ_96()])
    );

    assert_eq!(gold_effect(HUM, SQ_11()), bb_from_sqs([SQ_12(), SQ_21()]));

    assert_eq!(gold_effect(COM, SQ_99()), bb_from_sqs([SQ_89(), SQ_98()]));
}

#[test]
fn test_silver_effect() {
    assert_eq!(
        silver_effect(HUM, SQ_85()),
        bb_from_sqs([SQ_74(), SQ_76(), SQ_84(), SQ_94(), SQ_96()])
    );

    assert_eq!(
        silver_effect(COM, SQ_85()),
        bb_from_sqs([SQ_74(), SQ_76(), SQ_86(), SQ_94(), SQ_96()])
    );

    assert_eq!(silver_effect(HUM, SQ_11()), bb_from_sqs([SQ_22()]));

    assert_eq!(silver_effect(COM, SQ_99()), bb_from_sqs([SQ_88()]));
}

#[test]
fn test_knight_effect() {
    assert_eq!(knight_effect(HUM, SQ_85()), bb_from_sqs([SQ_73(), SQ_93()]));

    assert_eq!(knight_effect(COM, SQ_85()), bb_from_sqs([SQ_77(), SQ_97()]));

    assert_eq!(knight_effect(HUM, SQ_13()), bb_from_sqs([SQ_21()]));

    assert_eq!(knight_effect(COM, SQ_97()), bb_from_sqs([SQ_89()]));
}

#[test]
fn test_effect() {
    let pks: [PieceKind; 14] = [
        PAWN, LANCE, KNIGHT, SILVER, BISHOP, ROOK, GOLD, KING, PRO_PAWN, PRO_LANCE, PRO_KNIGHT,
        PRO_SILVER, HORSE, DRAGON,
    ];

        let counts_empty: [u32; 14] = [1, 4, 2, 5, 16, 16, 6, 8, 6, 6, 6, 6, 20, 20];

        let counts_full: [u32; 14] = [1, 1, 2, 5, 4, 4, 6, 8, 6, 6, 6, 6, 8, 8];

    for side in Side::iter() {
        for (i, pk) in pks.into_iter().enumerate() {
            let pc = Piece::new(side, pk);

            assert_eq!(
                effect(pc, SQ_55(), Bitboard::zero()).count_ones(),
                counts_empty[i]
            );
            assert_eq!(
                effect(pc, SQ_55(), Bitboard::all()).count_ones(),
                counts_full[i]
            );
        }
    }
}

#[test]
fn test_pawn_bb_effect() {
    assert_eq!(
        pawn_bb_effect(HUM, bb_from_sqs([SQ_14(), SQ_35(), SQ_79(), SQ_82()])),
        bb_from_sqs([SQ_13(), SQ_34(), SQ_78(), SQ_81()])
    );

    assert_eq!(
        pawn_bb_effect(COM, bb_from_sqs([SQ_14(), SQ_35(), SQ_78(), SQ_81()])),
        bb_from_sqs([SQ_15(), SQ_36(), SQ_79(), SQ_82()])
    );
}

#[test]
fn test_pawn_drop_mask() {
    assert_eq!(
        pawn_drop_mask(HUM, bb_from_sqs([SQ_14(), SQ_32(), SQ_59(), SQ_77(), SQ_83(), SQ_95()])),
        bb_from_ranges(&[(SQ_22(), SQ_29()), (SQ_42(), SQ_49()), (SQ_62(), SQ_69())])
    );

    assert_eq!(
        pawn_drop_mask(COM, bb_from_sqs([SQ_23(), SQ_37(), SQ_41(), SQ_52(), SQ_73()])),
        bb_from_ranges(&[
            (SQ_11(), SQ_18()),
            (SQ_61(), SQ_68()),
            (SQ_81(), SQ_88()),
            (SQ_91(), SQ_98()),
        ])
    );
}

#[test]
fn test_around25() {
    assert_eq!(
        around25(SQ_78()),
        bb_from_sqs([
            SQ_56(), SQ_57(), SQ_58(), SQ_59(), SQ_66(), SQ_67(), SQ_68(), SQ_69(), SQ_76(), SQ_77(), SQ_78(), SQ_79(),
            SQ_86(), SQ_87(), SQ_88(), SQ_89(), SQ_96(), SQ_97(), SQ_98(), SQ_99()
        ])
    );

    assert_eq!(
        around25(SQ_63()),
        bb_from_sqs([
            SQ_41(), SQ_42(), SQ_43(), SQ_44(), SQ_45(), SQ_51(), SQ_52(), SQ_53(), SQ_54(), SQ_55(), SQ_61(), SQ_62(),
            SQ_63(), SQ_64(), SQ_65(), SQ_71(), SQ_72(), SQ_73(), SQ_74(), SQ_75(), SQ_81(), SQ_82(), SQ_83(), SQ_84(),
            SQ_85()
        ])
    );
}
