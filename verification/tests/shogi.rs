use naitou_shogi::direction::{Direction, DirectionSet};
use naitou_shogi::shogi::{COM, HUM};
use naitou_shogi::shogi::{ROW_1, ROW_2, ROW_3, ROW_4, ROW_5, ROW_6, ROW_7, ROW_8, ROW_9};
use naitou_shogi::shogi::{
    SQ_11, SQ_15, SQ_19, SQ_23, SQ_24, SQ_25, SQ_33, SQ_34, SQ_35, SQ_43, SQ_44, SQ_45, SQ_51, SQ_59, SQ_75, SQ_83, SQ_91, SQ_95, SQ_99,
};

#[test]
fn test_row_is_promotion_zone() {
    assert!(ROW_1().is_promotion_zone(HUM));
    assert!(ROW_2().is_promotion_zone(HUM));
    assert!(ROW_3().is_promotion_zone(HUM));
    assert!(!ROW_4().is_promotion_zone(HUM));
    assert!(!ROW_5().is_promotion_zone(HUM));
    assert!(!ROW_6().is_promotion_zone(HUM));
    assert!(!ROW_7().is_promotion_zone(HUM));
    assert!(!ROW_8().is_promotion_zone(HUM));
    assert!(!ROW_9().is_promotion_zone(HUM));

    assert!(!ROW_1().is_promotion_zone(COM));
    assert!(!ROW_2().is_promotion_zone(COM));
    assert!(!ROW_3().is_promotion_zone(COM));
    assert!(!ROW_4().is_promotion_zone(COM));
    assert!(!ROW_5().is_promotion_zone(COM));
    assert!(!ROW_6().is_promotion_zone(COM));
    assert!(ROW_7().is_promotion_zone(COM));
    assert!(ROW_8().is_promotion_zone(COM));
    assert!(ROW_9().is_promotion_zone(COM));
}

#[test]
fn test_square_distance() {
    assert_eq!(SQ_11().distance(SQ_11()), 0);
    assert_eq!(SQ_23().distance(SQ_33()), 1);
    assert_eq!(SQ_23().distance(SQ_34()), 1);
    assert_eq!(SQ_75().distance(SQ_83()), 2);
    assert_eq!(SQ_75().distance(SQ_34()), 4);
    assert_eq!(SQ_91().distance(SQ_19()), 8);
}

#[test]
fn test_direction_set_basic() {
    assert!(DirectionSet::empty().is_empty());

    assert_eq!(DirectionSet::from(Direction::D), DirectionSet::D());

    let dirs: DirectionSet = DirectionSet::RU().or(DirectionSet::D()).or(DirectionSet::L());

    assert!(!dirs.is_disjoint(dirs));
    assert!(dirs.is_disjoint(
        DirectionSet::R()
            | DirectionSet::RD()
            | DirectionSet::U()
            | DirectionSet::LU()
            | DirectionSet::LD()
    ));
    assert!(!dirs.is_disjoint(DirectionSet::RU() | DirectionSet::U()));

    assert!(dirs.is_subset(dirs));
    assert!(
        dirs.is_subset(DirectionSet::RU() | DirectionSet::R() | DirectionSet::D() | DirectionSet::L())
    );
    assert!(!dirs.is_subset(DirectionSet::RU() | DirectionSet::U()));

    assert!(dirs.is_superset(dirs));
    assert!(dirs.is_superset(DirectionSet::RU()));
    assert!(!dirs.is_superset(DirectionSet::RU() | DirectionSet::U()));
}

#[test]
fn test_direction_set_bitop() {
    let dirs: DirectionSet = DirectionSet::RU().or(DirectionSet::D()).or(DirectionSet::L());

    assert_eq!(
        !dirs,
        DirectionSet::R()
            | DirectionSet::RD()
            | DirectionSet::U()
            | DirectionSet::LU()
            | DirectionSet::LD()
    );

    assert_eq!(
        dirs & (DirectionSet::RU() | DirectionSet::D() | DirectionSet::LD()),
        DirectionSet::RU() | DirectionSet::D()
    );

    assert_eq!(
        dirs | (DirectionSet::RU() | DirectionSet::LD()),
        DirectionSet::RU() | DirectionSet::D() | DirectionSet::L() | DirectionSet::LD()
    );

    assert_eq!(
        dirs ^ (DirectionSet::RU() | DirectionSet::LD()),
        DirectionSet::D() | DirectionSet::L() | DirectionSet::LD()
    );
}

#[test]
fn test_direction_set_from_squares() {
    assert_eq!(
        DirectionSet::from_squares(SQ_11(), SQ_11()),
        DirectionSet::empty()
    );

    assert_eq!(
        DirectionSet::from_squares(SQ_45(), SQ_33()),
        DirectionSet::empty()
    );

    assert_eq!(DirectionSet::from_squares(SQ_99(), SQ_11()), DirectionSet::RU());
    assert_eq!(DirectionSet::from_squares(SQ_95(), SQ_15()), DirectionSet::R());
    assert_eq!(DirectionSet::from_squares(SQ_91(), SQ_19()), DirectionSet::RD());
    assert_eq!(DirectionSet::from_squares(SQ_59(), SQ_51()), DirectionSet::U());
    assert_eq!(DirectionSet::from_squares(SQ_51(), SQ_59()), DirectionSet::D());
    assert_eq!(DirectionSet::from_squares(SQ_19(), SQ_91()), DirectionSet::LU());
    assert_eq!(DirectionSet::from_squares(SQ_15(), SQ_95()), DirectionSet::L());
    assert_eq!(DirectionSet::from_squares(SQ_11(), SQ_99()), DirectionSet::LD());

    assert_eq!(DirectionSet::from_squares(SQ_34(), SQ_23()), DirectionSet::RU());
    assert_eq!(DirectionSet::from_squares(SQ_34(), SQ_24()), DirectionSet::R());
    assert_eq!(DirectionSet::from_squares(SQ_34(), SQ_25()), DirectionSet::RD());
    assert_eq!(DirectionSet::from_squares(SQ_34(), SQ_33()), DirectionSet::U());
    assert_eq!(
        DirectionSet::from_squares(SQ_34(), SQ_34()),
        DirectionSet::empty()
    );
    assert_eq!(DirectionSet::from_squares(SQ_34(), SQ_35()), DirectionSet::D());
    assert_eq!(DirectionSet::from_squares(SQ_34(), SQ_43()), DirectionSet::LU());
    assert_eq!(DirectionSet::from_squares(SQ_34(), SQ_44()), DirectionSet::L());
    assert_eq!(DirectionSet::from_squares(SQ_34(), SQ_45()), DirectionSet::LD());
}

#[test]
fn test_direction_set_get_least() {
    let dirs: DirectionSet = DirectionSet::RU().or(DirectionSet::D()).or(DirectionSet::L());

    assert_eq!(dirs.get_least(), Direction::RU);
}

#[test]
fn test_direction_set_pop_least() {
    let mut dirs = DirectionSet::RU() | DirectionSet::D() | DirectionSet::L();

    assert_eq!(dirs.pop_least(), Direction::RU);
    assert_eq!(dirs.pop_least(), Direction::D);
    assert_eq!(dirs.pop_least(), Direction::L);

    assert_eq!(dirs, DirectionSet::empty());
}
