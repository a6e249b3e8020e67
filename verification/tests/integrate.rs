use dem_engine::fixed::NumericError;
use dem_engine::integrate::{_euler_integration, advance, drift, final_integrate, inital_integrate, kick};
use dem_engine::sphere::{Material, ParticleData};
use dem_engine::vector::Vec3;

const ONE: i64 = 1_000_000;

fn v(x: i64, y: i64, z: i64) -> Vec3 {
    Vec3 { x, y, z }
}

fn store(mass: i64) -> ParticleData {
    let mut p = ParticleData::new(950_000, 0);
    let m = Material { radius: ONE, mass, youngs_mod: ONE, poisson_ratio: 0, density: ONE, id: 1 };
    p.add_material(m);
    p.add_sphere(&m, v(ONE, 2 * ONE, 3 * ONE), v(100_000, 0, -200_000));
    p.force[0] = v(4 * ONE, -2 * ONE, ONE);
    p
}

#[test]
fn a_kick_adds_force_over_mass_times_time() {
    // force 4 on mass 2 for 0.1: 0.2
    assert_eq!(kick(&v(0, 0, 0), &v(4 * ONE, 0, 0), 2 * ONE, 100_000, 1, 1), Some(v(200_000, 0, 0)));
    assert_eq!(kick(&v(0, 0, 0), &v(4 * ONE, 0, 0), 2 * ONE, 100_000, 1, 2), Some(v(100_000, 0, 0)));
    assert_eq!(kick(&v(7, 0, 0), &v(-3, 0, 0), 2, 1, 1, 1), Some(v(6, 0, 0)));
    assert_eq!(kick(&v(0, 0, 0), &v(ONE, 0, 0), 0, ONE, 1, 2), None);
}

#[test]
fn a_drift_moves_with_the_velocity() {
    assert_eq!(drift(&v(ONE, 0, 0), &v(500_000, -ONE, 0), 100_000), Some(v(1_050_000, -100_000, 0)));
    assert_eq!(drift(&v(i64::MAX, 0, 0), &v(ONE, 0, 0), ONE), None);
}

#[test]
fn first_half_step_kicks_then_drifts() {
    let mut p = store(2 * ONE);
    assert_eq!(inital_integrate(&mut p, 100_000), Ok(()));
    assert_eq!(p.velocity[0], v(200_000, -50_000, -175_000));
    assert_eq!(p.position[0], v(1_020_000, 1_995_000, 2_982_500));
    assert_eq!(p.force[0], v(4 * ONE, -2 * ONE, ONE));
}

#[test]
fn second_half_step_only_kicks() {
    let mut p = store(2 * ONE);
    assert_eq!(final_integrate(&mut p, 100_000), Ok(()));
    assert_eq!(p.velocity[0], v(200_000, -50_000, -175_000));
    assert_eq!(p.position[0], v(ONE, 2 * ONE, 3 * ONE));
}

#[test]
fn euler_step_kicks_for_the_whole_time() {
    let mut p = store(2 * ONE);
    assert_eq!(_euler_integration(&mut p, 100_000), Ok(()));
    assert_eq!(p.velocity[0], v(300_000, -100_000, -150_000));
    assert_eq!(p.position[0], v(1_030_000, 1_990_000, 2_985_000));
}

#[test]
fn a_massless_entity_fails_the_step_and_nothing_moves() {
    let mut p = store(0);
    let m = Material { radius: ONE, mass: ONE, youngs_mod: ONE, poisson_ratio: 0, density: ONE, id: 1 };
    p.add_sphere(&m, v(0, 0, 0), v(ONE, 0, 0));
    p.velocity.swap(0, 1);
    p.position.swap(0, 1);
    p.mass.swap(0, 1);
    p.force.swap(0, 1);
    assert_eq!(inital_integrate(&mut p, 100_000), Err(NumericError::OutOfRange));
    assert_eq!(p.position, vec![v(0, 0, 0), v(ONE, 2 * ONE, 3 * ONE)]);
    assert_eq!(p.velocity, vec![v(ONE, 0, 0), v(100_000, 0, -200_000)]);
}

#[test]
fn advance_is_kick_and_drift() {
    let r = advance(&v(0, 0, 0), &v(0, 0, 0), &v(ONE, 0, 0), ONE, ONE, 1, 2, true);
    assert_eq!(r, Some((v(500_000, 0, 0), v(500_000, 0, 0))));
    let r = advance(&v(0, 0, 0), &v(0, 0, 0), &v(ONE, 0, 0), ONE, ONE, 1, 2, false);
    assert_eq!(r, Some((v(0, 0, 0), v(500_000, 0, 0))));
}
