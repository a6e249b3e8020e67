use dem_engine::vector::{Mat3, Vec3, WideSum};

const ONE: i64 = 1_000_000;

fn v(x: i64, y: i64, z: i64) -> Vec3 {
    Vec3 { x, y, z }
}

#[test]
fn sums_and_differences_are_range_checked() {
    assert_eq!(v(1, 2, 3).plus(&v(10, 20, 30)), Some(v(11, 22, 33)));
    assert_eq!(v(1, 2, 3).minus(&v(10, 20, 30)), Some(v(-9, -18, -27)));
    assert_eq!(v(i64::MAX, 0, 0).plus(&v(1, 0, 0)), None);
    assert_eq!(v(0, 0, i64::MIN).minus(&v(0, 0, 1)), None);
    assert_eq!(Vec3::zero(), v(0, 0, 0));
    assert_eq!(Vec3::new(1, 2, 3), v(1, 2, 3));
}

#[test]
fn products_are_rounded_once() {
    // 0.3 * 0.3 + 0.3 * 0.3 + ... of raw values that each round to nothing alone
    assert_eq!(v(600, 600, 600).dot(&v(600, 600, 600)), Some(1));
    assert_eq!(v(ONE, 2 * ONE, 3 * ONE).dot(&v(4 * ONE, -5 * ONE, 6 * ONE)), Some(12 * ONE));
    assert_eq!(v(ONE, 0, 0).cross(&v(0, ONE, 0)), Some(v(0, 0, ONE)));
    assert_eq!(v(ONE, 2 * ONE, 3 * ONE).cross(&v(4 * ONE, 5 * ONE, 6 * ONE)), Some(v(-3 * ONE, 6 * ONE, -3 * ONE)));
    assert_eq!(v(i64::MAX, i64::MAX, i64::MAX).dot(&v(i64::MAX, i64::MAX, i64::MAX)), None);
    assert_eq!(v(i64::MIN, i64::MIN, i64::MIN).dot(&v(i64::MIN, i64::MIN, i64::MIN)), None);
    assert_eq!(v(i64::MAX, i64::MIN, 0).dot(&v(ONE, ONE, 0)), Some(-1));
}

#[test]
fn length_is_rounded_down() {
    assert_eq!(v(3, 4, 0).norm(), Some(5));
    assert_eq!(v(1, 1, 1).norm(), Some(1));
    assert_eq!(v(0, 0, 0).norm(), Some(0));
    assert_eq!(v(i64::MAX, i64::MAX, i64::MAX).norm(), None);
    assert_eq!(v(i64::MIN, 0, 0).norm(), None);
    assert_eq!(v(i64::MAX, 0, 0).norm(), Some(i64::MAX));
}

#[test]
fn scaling_rounds_toward_zero() {
    assert_eq!(v(7, -7, 1).times(1, 2), Some(v(3, -3, 0)));
    assert_eq!(v(7, -7, 1).times(-1, 1), Some(v(-7, 7, -1)));
    assert_eq!(v(7, -7, 1).times(1, 0), None);
    assert_eq!(v(i64::MIN, 0, 0).times(-1, 1), None);
}

#[test]
fn entries_by_index() {
    let m = Mat3 { x: v(1, 2, 3), y: v(4, 5, 6), z: v(7, 8, 9) };
    assert_eq!((m.at(0, 0), m.at(0, 2), m.at(1, 1), m.at(2, 0)), (1, 3, 5, 7));
    assert_eq!(m.with(1, 2, 60), Mat3 { x: v(1, 2, 3), y: v(4, 5, 60), z: v(7, 8, 9) });
    assert_eq!(m.with(2, 0, 70).at(2, 0), 70);
    assert_eq!(v(1, 2, 3).with(1, 20), v(1, 20, 3));
    assert_eq!(Mat3::identity().times(3, 1), Some(Mat3 { x: v(3 * ONE, 0, 0), y: v(0, 3 * ONE, 0), z: v(0, 0, 3 * ONE) }));
    assert_eq!(Mat3::zero().plus(&m), Some(m));
}

#[test]
fn wide_sums_hold_full_products() {
    let s = WideSum::zero().with_product(i64::MAX, i64::MAX, false).with_product(i64::MAX, i64::MAX, true);
    assert_eq!(s.div(1), Some(0));
    let s = WideSum::zero().with_product(i64::MIN, i64::MIN, false).with_product(i64::MIN, i64::MAX, false);
    // 2^126 - 2^63 * (2^63 - 1) = 2^63
    assert_eq!(s.div(2), Some(1 << 62));
    assert_eq!(s.div(-2), Some(-(1 << 62)));
    assert_eq!(s.div(1), None);
    assert_eq!(s.div(0), None);
}
