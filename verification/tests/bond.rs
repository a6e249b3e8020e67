use dem_engine::bond::{bond_area, committed, polar_moment, stress, BondData, BondSet, BondState};
use dem_engine::vector::Vec3;

const ONE: i64 = 1_000_000;

fn v(x: i64, y: i64, z: i64) -> Vec3 {
    Vec3 { x, y, z }
}

fn bond() -> BondData {
    BondData::new(43 * ONE, 16 * ONE, 43 * ONE, 16 * ONE, 22 * ONE, 22 * ONE, 876_300, 876_300, 876_300, 876_300)
}

#[test]
fn cross_section_of_a_bond() {
    assert_eq!(bond_area(ONE), Some(3_141_593));
    assert_eq!(bond_area(2 * ONE), Some(12_566_372));
    assert_eq!(polar_moment(ONE), Some(1_570_796));
    assert_eq!(polar_moment(2 * ONE), Some(25_132_744));
}

#[test]
fn stress_is_force_over_area_plus_moment_over_section() {
    // force 3.141593 on the unit bond: stress 1; moment 1.570796: once or twice 1
    assert_eq!(stress(3_141_593, 0, ONE, true), Some(ONE));
    assert_eq!(stress(0, 1_570_796, ONE, false), Some(ONE));
    assert_eq!(stress(3_141_593, 1_570_796, ONE, true), Some(3 * ONE));
    assert_eq!(stress(-3_141_593, 1_570_796, ONE, false), Some(0));
    assert_eq!(stress(ONE, ONE, 0, false), None);
}

#[test]
fn a_separating_velocity_breaks_the_bond_and_the_sweep_removes_it() {
    let mut set = BondSet::new();
    assert!(set.declare(1, 0, bond()));
    assert!(set.declare(1, 2, bond()));
    assert_eq!(set.state(0, 1), BondState::Active);
    assert_eq!(set.state(1, 0), BondState::Active);
    assert_eq!(set.state(0, 2), BondState::Absent);
    let place = set.find(0, 1).unwrap();
    let mut steps = 0;
    // the ends of the first bond move apart at the speed 1
    loop {
        let b = &mut set.entries[place].bond;
        b.stretch(ONE, 10_000, ONE).unwrap();
        steps += 1;
        if b.assess(ONE).unwrap() {
            break;
        }
        assert!(b.current_sigma <= b.sigma_max);
        assert!(steps < 1000);
    }
    // the stress grows by 0.43 a step, and the strength is 22
    assert_eq!(steps, 52);
    assert!(set.entries[place].bond.current_sigma > 22 * ONE);
    assert!(set.entries[place].bond.broken);
    assert_eq!(set.state(0, 1), BondState::Broken);
    assert_eq!(set.state(1, 2), BondState::Active);
    set.sweep();
    assert_eq!(set.state(0, 1), BondState::Absent);
    assert_eq!(set.find(0, 1), None);
    assert_eq!(set.state(1, 2), BondState::Active);
    assert_eq!(set.entries.len(), 1);
    // the pair can be bonded anew
    assert!(set.declare(0, 1, bond()));
    assert_eq!(set.state(0, 1), BondState::Active);
}

#[test]
fn a_pair_has_one_bond() {
    let mut set = BondSet::new();
    assert!(set.declare(4, 2, bond()));
    assert!(!set.declare(2, 4, bond()));
    assert!(!set.declare(4, 2, bond()));
    assert!(!set.declare(3, 3, bond()));
    assert_eq!(set.entries.len(), 1);
    assert_eq!((set.entries[0].first, set.entries[0].second), (2, 4));
}

#[test]
fn shear_breaks_a_bond_too() {
    let mut b = bond();
    b.tangential_force_sum = v(0, 70 * ONE, 0);
    assert_eq!(b.assess(ONE), Ok(true));
    assert_eq!(b.current_sigma, 0);
    assert_eq!(b.current_tau, 22_281_689);
    let mut c = bond();
    c.tangential_force_sum = v(0, 69 * ONE, 0);
    assert_eq!(c.assess(ONE), Ok(false));
    // a broken bond stays broken
    b.tangential_force_sum = v(0, 0, 0);
    assert_eq!(b.assess(ONE), Ok(true));
    assert_eq!(b.current_tau, 0);
}

#[test]
fn compression_does_not_break_a_bond() {
    let mut b = bond();
    b.stretch(-ONE, ONE, ONE).unwrap();
    assert!(b.resistance_normal_force < 0);
    assert_eq!(b.assess(ONE), Ok(false));
}

#[test]
fn an_increment_enters_the_sum_once_it_is_large_enough() {
    assert_eq!(committed(&v(1, 2, 3), &v(3, 0, 4), 5), Some((v(1, 2, 3), v(3, 0, 4))));
    assert_eq!(committed(&v(1, 2, 3), &v(3, 0, 4), 4), Some((v(4, 2, 7), v(0, 0, 0))));
    assert_eq!(committed(&v(i64::MAX, 0, 0), &v(3, 0, 4), 4), None);
}
