use std::collections::HashSet;

use naitou_shogi::direction::{Direction, DirectionSet};
use naitou_shogi::effect::DirectionSetPair;
use naitou_shogi::shogi::{COM, HUM};

#[test]
fn test_direction_set_pair_basic() {
    let dsp_empty: DirectionSetPair = DirectionSetPair::empty();

    assert_eq!(dsp_empty.get(HUM), DirectionSet::empty());
    assert_eq!(dsp_empty.get(COM), DirectionSet::empty());

    let dirs_hum: DirectionSet = DirectionSet::RU().or(DirectionSet::L());
    let dirs_com: DirectionSet = DirectionSet::R().or(DirectionSet::D());

    assert_eq!(
        DirectionSetPair::from_part(HUM, dirs_hum).get(HUM),
        dirs_hum
    );
    assert_eq!(
        DirectionSetPair::from_part(HUM, dirs_hum).get(COM),
        DirectionSet::empty()
    );
    assert_eq!(
        DirectionSetPair::from_part(COM, dirs_com).get(HUM),
        DirectionSet::empty()
    );
    assert_eq!(
        DirectionSetPair::from_part(COM, dirs_com).get(COM),
        dirs_com
    );

    let dsp: DirectionSetPair = DirectionSetPair::new(dirs_hum, dirs_com);

    assert_eq!(dsp.get(HUM), dirs_hum);
    assert_eq!(dsp.get(COM), dirs_com);
}

#[test]
fn test_direction_set_pair_bitop() {
    let dsp1 = DirectionSetPair::new(
        DirectionSet::RU() | DirectionSet::U() | DirectionSet::LD(),
        DirectionSet::RD() | DirectionSet::D() | DirectionSet::LU(),
    );
    let dsp2 = DirectionSetPair::new(
        DirectionSet::RU() | DirectionSet::D() | DirectionSet::L(),
        DirectionSet::RU() | DirectionSet::D() | DirectionSet::L(),
    );

    assert_eq!(
        !dsp1,
        DirectionSetPair::new(
            DirectionSet::R()
                | DirectionSet::RD()
                | DirectionSet::D()
                | DirectionSet::LU()
                | DirectionSet::L(),
            DirectionSet::RU()
                | DirectionSet::R()
                | DirectionSet::U()
                | DirectionSet::L()
                | DirectionSet::LD()
        )
    );

    assert_eq!(
        dsp1 & dsp2,
        DirectionSetPair::new(DirectionSet::RU(), DirectionSet::D())
    );

    assert_eq!(
        dsp1 | dsp2,
        DirectionSetPair::new(
            DirectionSet::RU()
                | DirectionSet::U()
                | DirectionSet::D()
                | DirectionSet::L()
                | DirectionSet::LD(),
            DirectionSet::RU()
                | DirectionSet::RD()
                | DirectionSet::D()
                | DirectionSet::LU()
                | DirectionSet::L()
        )
    );

    assert_eq!(
        dsp1 ^ dsp2,
        DirectionSetPair::new(
            DirectionSet::U() | DirectionSet::D() | DirectionSet::L() | DirectionSet::LD(),
            DirectionSet::RU() | DirectionSet::RD() | DirectionSet::LU() | DirectionSet::L()
        )
    );
}

#[test]
fn test_direction_set_pair_pop() {
    let mut dsp = DirectionSetPair::new(
        DirectionSet::RU() | DirectionSet::L(),
        DirectionSet::U() | DirectionSet::L(),
    );

        let mut set = HashSet::new();
    set.insert(dsp.pop());
    set.insert(dsp.pop());
    set.insert(dsp.pop());

    assert_eq!(
        set,
        HashSet::from_iter([
            (
                Direction::RU,
                DirectionSetPair::from_part(HUM, DirectionSet::RU())
            ),
            (
                Direction::L,
                DirectionSetPair::new(DirectionSet::L(), DirectionSet::L())
            ),
            (
                Direction::U,
                DirectionSetPair::from_part(COM, DirectionSet::U())
            ),
        ])
    );

    assert_eq!(dsp, DirectionSetPair::empty());
}
