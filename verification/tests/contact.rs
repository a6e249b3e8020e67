use dem_engine::contact::{
    contact_stiffness, dissipation, effective_radius, effective_youngs, hertz_force, pair_contact,
    reduced_mass, separation, unit_normal, Body, Touch,
};
use dem_engine::vector::{Mat3, Vec3};

const ONE: i64 = 1_000_000;

fn v(x: i64, y: i64, z: i64) -> Vec3 {
    Vec3 { x, y, z }
}

fn body(position: Vec3, velocity: Vec3) -> Body {
    Body { position, velocity, radius: ONE, mass: 2 * ONE, youngs_mod: 1000 * ONE, poisson_ratio: 300_000 }
}

#[test]
fn effective_constants_have_their_exact_values() {
    assert_eq!(effective_radius(ONE, ONE), Some(500_000));
    assert_eq!(effective_radius(ONE, 3 * ONE), Some(750_000));
    assert_eq!(effective_radius(0, 0), None);
    assert_eq!(effective_youngs(1000 * ONE, 300_000, 1000 * ONE, 300_000), Some(549_450_549));
    assert_eq!(effective_youngs(1000 * ONE, ONE, 1000 * ONE, ONE), None);
    assert_eq!(reduced_mass(2 * ONE, 2 * ONE), Some(ONE));
    assert_eq!(reduced_mass(ONE, 3 * ONE), Some(750_000));
}

#[test]
fn hertz_force_has_its_exact_value() {
    let k = contact_stiffness(549_450_549, 500_000, 100_000);
    assert_eq!(k, Some(245_720_878));
    assert_eq!(hertz_force(245_720_878, 100_000), Some(16_381_391));
    assert_eq!(dissipation(100_000, 245_720_878, ONE, -100_000), Some(-404_738));
    assert_eq!(dissipation(100_000, 245_720_878, ONE, 100_000), Some(404_738));
    assert_eq!(dissipation(0, 245_720_878, ONE, 100_000), Some(0));
}

#[test]
fn stiffness_of_a_negative_overlap_is_undefined() {
    assert_eq!(contact_stiffness(549_450_549, 500_000, -1), None);
    assert_eq!(contact_stiffness(549_450_549, 500_000, 0), Some(0));
}

#[test]
fn separation_measures_the_overlap() {
    let s = separation(v(0, 0, 0), ONE, v(1_140_000, 1_520_000, 0), ONE).unwrap();
    assert_eq!(s.delta, v(1_140_000, 1_520_000, 0));
    assert_eq!(s.distance, 1_900_000);
    assert_eq!(s.overlap, 100_000);
    let apart = separation(v(0, 0, 0), ONE, v(2 * ONE, 0, 0), ONE).unwrap();
    assert_eq!(apart.overlap, 0);
    assert_eq!(separation(v(i64::MIN, 0, 0), ONE, v(i64::MAX, 0, 0), ONE), None);
}

#[test]
fn unit_normal_has_unit_length() {
    assert_eq!(unit_normal(v(1_140_000, 1_520_000, 0), 1_900_000), Some(v(600_000, 800_000, 0)));
    assert_eq!(unit_normal(v(-3, 0, 4), 5), Some(v(-600_000, 0, 800_000)));
    assert_eq!(unit_normal(v(0, 0, 0), 0), Some(v(0, 0, 0)));
}

#[test]
fn overlapping_pair_is_pushed_apart_along_the_line_of_centres() {
    let a = body(v(0, 0, 0), v(0, 0, 0));
    let b = body(v(1_900_000, 0, 0), v(-100_000, 0, 0));
    match pair_contact(&a, &b, 100_000, false).unwrap() {
        Touch::Pressing(f) => {
            assert_eq!(f.force, v(16_786_129, 0, 0));
            assert_eq!(f.delta, v(1_900_000, 0, 0));
            assert_eq!(
                f.tensor,
                Mat3 { x: v(31_893_645, 0, 0), y: v(0, 0, 0), z: v(0, 0, 0) }
            );
        },
        Touch::Apart => panic!("the spheres overlap"),
    }
    match pair_contact(&a, &b, 100_000, true).unwrap() {
        Touch::Pressing(f) => assert_eq!(f.force, v(8_393_064, 0, 0)),
        Touch::Apart => panic!("the spheres overlap"),
    }
}

#[test]
fn oblique_contact_splits_the_force_by_the_normal() {
    let a = body(v(0, 0, 0), v(0, 0, 0));
    let b = body(v(1_140_000, 1_520_000, 0), v(-100_000, 0, 0));
    match pair_contact(&a, &b, 0, false).unwrap() {
        Touch::Pressing(f) => assert_eq!(f.force, v(9_828_834, 13_105_112, 0)),
        Touch::Apart => panic!("the spheres overlap"),
    }
}

#[test]
fn spheres_that_only_touch_are_apart() {
    let a = body(v(0, 0, 0), v(0, 0, 0));
    let b = body(v(2 * ONE, 0, 0), v(0, 0, 0));
    assert_eq!(pair_contact(&a, &b, 100_000, false), Some(Touch::Apart));
    let c = body(v(5 * ONE, 0, 0), v(0, 0, 0));
    assert_eq!(pair_contact(&a, &c, 100_000, false), Some(Touch::Apart));
}

#[test]
fn coincident_centres_press_with_no_direction() {
    let a = body(v(0, 0, 0), v(0, 0, 0));
    match pair_contact(&a, &a, 0, false).unwrap() {
        Touch::Pressing(f) => assert_eq!(f.force, v(0, 0, 0)),
        Touch::Apart => panic!("the spheres overlap"),
    }
}

#[test]
fn a_massless_pair_cannot_be_computed() {
    let mut a = body(v(0, 0, 0), v(0, 0, 0));
    let mut b = body(v(1_900_000, 0, 0), v(0, 0, 0));
    a.mass = 0;
    b.mass = 0;
    assert_eq!(pair_contact(&a, &b, 0, false), None);
}
