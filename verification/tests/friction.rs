use dem_engine::friction::{
    contact_radius, contact_torque, coulomb_clamp, coulomb_limit, length_up, tangential_change, LoadingMode,
};
use dem_engine::vector::Vec3;

const ONE: i64 = 1_000_000;

fn v(x: i64, y: i64, z: i64) -> Vec3 {
    Vec3 { x, y, z }
}

#[test]
fn contact_radius_is_the_root_of_radius_times_overlap() {
    assert_eq!(contact_radius(500_000, 80_000), Some(200_000));
    assert_eq!(contact_radius(500_000, -80_000), None);
}

#[test]
fn tangential_change_by_mode() {
    // 8 * 100 * 0.2 * 0.5 * 0.01 = 0.8, and 0.3 * 2 * (1 - 0.5) = 0.3
    let loading = tangential_change(100 * ONE, 200_000, 500_000, 10_000, LoadingMode::Loading, 300_000, 2 * ONE);
    assert_eq!(loading, Some(1_100_000));
    let unloading = tangential_change(100 * ONE, 200_000, 500_000, 10_000, LoadingMode::Unloading, 300_000, 2 * ONE);
    assert_eq!(unloading, Some(500_000));
    let reloading = tangential_change(100 * ONE, 200_000, 500_000, 10_000, LoadingMode::Reloading, 300_000, 2 * ONE);
    assert_eq!(reloading, loading);
    // with theta one, nothing slides
    assert_eq!(tangential_change(100 * ONE, 200_000, ONE, 10_000, LoadingMode::Unloading, 300_000, 2 * ONE), Some(1_600_000));
    assert_eq!(tangential_change(i64::MAX, i64::MAX, ONE, 10_000, LoadingMode::Loading, 0, 0), None);
}

#[test]
fn length_is_rounded_up() {
    assert_eq!(length_up(&v(3, 4, 0)), Some(5));
    assert_eq!(length_up(&v(1, 1, 1)), Some(2));
    assert_eq!(length_up(&v(0, 0, 0)), Some(0));
    assert_eq!(length_up(&v(i64::MAX, i64::MAX, 0)), None);
}

#[test]
fn friction_cuts_the_force_down_to_the_limit() {
    assert_eq!(coulomb_limit(300_000, -10 * ONE), Some(3 * ONE));
    assert_eq!(coulomb_limit(300_000, 10 * ONE), Some(3 * ONE));
    assert_eq!(coulomb_limit(300_000, i64::MIN), None);
    assert_eq!(coulomb_clamp(&v(3 * ONE, 4 * ONE, 0), 5 * ONE), Some(v(3 * ONE, 4 * ONE, 0)));
    assert_eq!(coulomb_clamp(&v(3 * ONE, 4 * ONE, 0), 2_500_000), Some(v(1_500_000, 2 * ONE, 0)));
    assert_eq!(coulomb_clamp(&v(3 * ONE, 4 * ONE, 0), 0), Some(v(0, 0, 0)));
    assert_eq!(coulomb_clamp(&v(3 * ONE, 4 * ONE, 0), -1), None);
    // a length that is no whole number is rounded up, and the force stays within the limit
    let cut = coulomb_clamp(&v(ONE, ONE, ONE), ONE).unwrap();
    assert_eq!(cut, v(577_350, 577_350, 577_350));
    let len2 = 3 * (cut.x as i128) * (cut.x as i128);
    assert!(len2 <= (ONE as i128) * (ONE as i128));
}

#[test]
fn tangential_force_turns_the_entity() {
    assert_eq!(contact_torque(&v(ONE, 0, 0), &v(0, 2 * ONE, 0)), Some(v(0, 0, 2 * ONE)));
    assert_eq!(contact_torque(&v(ONE, 0, 0), &v(3 * ONE, 0, 0)), Some(v(0, 0, 0)));
}
