use naitou_shogi::bitboard::{Bitboard, Bitboard256};
use naitou_shogi::shogi::Square;
use naitou_shogi::shogi::{
    SQ_11, SQ_19, SQ_25, SQ_34, SQ_36, SQ_39, SQ_45, SQ_65, SQ_67, SQ_72, SQ_74, SQ_79, SQ_81, SQ_84, SQ_85, SQ_88, SQ_93, SQ_94, SQ_99,
};

fn bb_from_sqs<I: IntoIterator<Item = Square>>(sqs: I) -> Bitboard {
    sqs.into_iter()
        .map(Bitboard::from)
        .reduce(std::ops::BitOr::bitor)
        .expect("sqs must be nonempty")
}

#[test]
fn test_basic() {
    let mut bb = Bitboard::zero();
    assert_eq!(bb.part0(), 0);
    assert_eq!(bb.part1(), 0);
    assert!(bb.is_valid());
    assert!(bb.is_zero());

    {
                let lo = 0x0123456789ABCDEF;
        let hi = 0xDEADBEEFABADCAFE;
        bb.set_parts(lo, hi);
        assert!(!bb.is_valid());
        assert!(!bb.is_zero());
        assert_eq!(bb, Bitboard::from_parts(lo, hi));
        assert_eq!(bb.part0(), lo);
        assert_eq!(bb.part1(), hi);
        assert_eq!(bb.part(0), bb.part0());
        assert_eq!(bb.part(1), bb.part1());

        let mut bb2 = Bitboard::zero();
        bb2.set_part0(lo);
        bb2.set_part1(hi);
        assert_eq!(bb, bb2);
    }
}

#[test]
fn test_from_square() {
    for sq in Square::iter() {
        let bb = Bitboard::from(sq);
        assert!(bb.is_valid());
        assert!(bb.test_square(sq));
    }
}

#[test]
fn test_bitop() {
    assert_eq!(!bb_from_sqs(Square::iter()), Bitboard::zero());

    let bb1 = bb_from_sqs([SQ_11(), SQ_45(), SQ_79(), SQ_81(), SQ_99()]);
    let bb2 = bb_from_sqs([SQ_19(), SQ_45(), SQ_72(), SQ_88(), SQ_99()]);

    assert_eq!(bb1 & bb2, bb_from_sqs([SQ_45(), SQ_99()]));

    assert_eq!(
        bb1 | bb2,
        bb_from_sqs([SQ_11(), SQ_19(), SQ_45(), SQ_72(), SQ_79(), SQ_81(), SQ_88(), SQ_99()])
    );

    assert_eq!(
        bb1 ^ bb2,
        bb_from_sqs([SQ_11(), SQ_19(), SQ_72(), SQ_79(), SQ_81(), SQ_88()])
    );
}

#[test]
fn test_add() {
    assert_eq!(
        Bitboard::from_parts(!0, !0).add_parts(Bitboard::from_parts(3, 4)),
        Bitboard::from_parts(2, 3)
    );
}

#[test]
fn test_sub() {
    assert_eq!(
        Bitboard::from_parts(2, 3).sub_parts(Bitboard::from_parts(3, 4)),
        Bitboard::from_parts(!0, !0)
    );
}

#[test]
fn test_shift() {
    let bb = Bitboard::from_parts(0b10110, 0b11001);

    assert_eq!(
        bb.logical_shift_left_parts::<1>(),
        Bitboard::from_parts(0b101100, 0b110010)
    );

    assert_eq!(
        bb.logical_shift_right_parts::<1>(),
        Bitboard::from_parts(0b1011, 0b1100)
    );
}

#[test]
fn test_get_least_square() {
    {
        let bb = bb_from_sqs([SQ_25(), SQ_36(), SQ_65(), SQ_79(), SQ_81(), SQ_99()]);
        assert_eq!(bb.get_least_square(), SQ_25());
    }
    {
        let bb = bb_from_sqs([SQ_84(), SQ_93(), SQ_99()]);
        assert_eq!(bb.get_least_square(), SQ_84());
    }
}

#[test]
fn test_pop_least_square() {
    let mut bb = bb_from_sqs([SQ_11(), SQ_39(), SQ_79(), SQ_81(), SQ_94(), SQ_99()]);

    assert_eq!(bb.pop_least_square(), SQ_11());
    assert_eq!(bb.pop_least_square(), SQ_39());
    assert_eq!(bb.pop_least_square(), SQ_79());
    assert_eq!(bb.pop_least_square(), SQ_81());
    assert_eq!(bb.pop_least_square(), SQ_94());
    assert_eq!(bb.pop_least_square(), SQ_99());

    assert_eq!(bb, Bitboard::zero());
}

#[test]
fn test_squares() {
    let sqs = [SQ_11(), SQ_39(), SQ_79(), SQ_81(), SQ_94(), SQ_99()];

    let bb = bb_from_sqs(sqs);

    assert_eq!(bb.squares(), sqs.to_vec());
}

#[test]
fn test_byte_reverse() {
    let bb = Bitboard::from_parts(0x0123456789ABCDEF, 0xFEDCBA9876543210);

    assert_eq!(
        bb.byte_reverse(),
        Bitboard::from_parts(0x1032547698BADCFE, 0xEFCDAB8967452301)
    );
}

#[test]
fn test_basic_256() {
    let bb = Bitboard::from_parts(0x0123456789ABCDEF, 0xDEADBEEFABADCAFE);

    assert_eq!(
        Bitboard256::broadcast_bitboard(bb),
        Bitboard256::from_bitboards(bb, bb)
    );
}

#[test]
fn test_bitop_256() {
    let bb1 =
        Bitboard256::from_bitboards(bb_from_sqs([SQ_11(), SQ_99()]), bb_from_sqs([SQ_45(), SQ_67()]));
    let bb2 =
        Bitboard256::from_bitboards(bb_from_sqs([SQ_11(), SQ_74()]), bb_from_sqs([SQ_67(), SQ_88()]));

    assert_eq!(
        bb1 & bb2,
        Bitboard256::from_bitboards(bb_from_sqs([SQ_11()]), bb_from_sqs([SQ_67()]))
    );

    assert_eq!(
        bb1 | bb2,
        Bitboard256::from_bitboards(
            bb_from_sqs([SQ_11(), SQ_74(), SQ_99()]),
            bb_from_sqs([SQ_45(), SQ_67(), SQ_88()])
        )
    );

    assert_eq!(
        bb1 ^ bb2,
        Bitboard256::from_bitboards(bb_from_sqs([SQ_74(), SQ_99()]), bb_from_sqs([SQ_45(), SQ_88()]))
    );
}

#[test]
fn test_merge_256() {
    let bb = Bitboard256::from_bitboards(
        bb_from_sqs([SQ_11(), SQ_85()]),
        bb_from_sqs([SQ_34(), SQ_85(), SQ_99()]),
    );

    assert_eq!(bb.merge(), bb_from_sqs([SQ_11(), SQ_34(), SQ_85(), SQ_99()]));
}

#[test]
fn test_byte_reverse_256() {
    let bb = Bitboard256::from_bitboards(
        Bitboard::from_parts(0x0123456789ABCDEF, 0xFEDCBA9876543210),
        Bitboard::from_parts(0xDEADBEEFABADCAFE, 0xFEEDFACECAFEBEEF),
    );

    assert_eq!(
        bb.byte_reverse(),
        Bitboard256::from_bitboards(
            Bitboard::from_parts(0x1032547698BADCFE, 0xEFCDAB8967452301),
            Bitboard::from_parts(0xEFBEFECACEFAEDFE, 0xFECAADABEFBEADDE)
        )
    );
}

#[test]
fn test_for_each_square() {
    let sqs_orig = [SQ_11(), SQ_39(), SQ_79(), SQ_81(), SQ_94(), SQ_99()];

    let bb = bb_from_sqs(sqs_orig);
    let sqs = std::cell::RefCell::new(vec![]);
    bb.for_each_square(|sq| sqs.borrow_mut().push(sq));

    assert_eq!(sqs.into_inner(), sqs_orig);
}
