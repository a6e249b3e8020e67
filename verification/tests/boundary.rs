use dem_engine::boundary::{lees_edwards_boundaries, relax_boundaries_box, sheared_wrap, wrap_axis};
use dem_engine::domain::DomainData;
use dem_engine::fixed::NumericError;
use dem_engine::sphere::{Material, ParticleData};
use dem_engine::vector::{Index3, Vec3};

const ONE: i64 = 1_000_000;

fn v(x: i64, y: i64, z: i64) -> Vec3 {
    Vec3 { x, y, z }
}

fn store(places: &[Vec3], speeds: &[Vec3]) -> ParticleData {
    let mut p = ParticleData::new(950_000, 0);
    let m = Material { radius: ONE, mass: ONE, youngs_mod: ONE, poisson_ratio: 0, density: ONE, id: 1 };
    p.add_material(m);
    for (a, b) in places.iter().zip(speeds.iter()) {
        p.add_sphere(&m, *a, *b);
    }
    p
}

#[test]
fn wrap_takes_a_coordinate_into_the_half_open_domain() {
    assert_eq!(wrap_axis(11, 10), 1);
    assert_eq!(wrap_axis(10, 10), 10);
    assert_eq!(wrap_axis(5, 10), 5);
    assert_eq!(wrap_axis(0, 10), 10);
    assert_eq!(wrap_axis(-3, 10), 7);
    // one extent at a time
    assert_eq!(wrap_axis(25, 10), 15);
    assert_eq!(wrap_axis(i64::MIN, i64::MAX), -1);
}

#[test]
fn plain_boundary_wraps_every_axis_by_itself() {
    let mut d = DomainData::new(v(10, 20, 30), Index3 { x: 1, y: 1, z: 1 }, 0).unwrap();
    let mut p = store(&[v(11, -1, 30), v(5, 21, 0)], &[v(1, 2, 3), v(4, 5, 6)]);
    relax_boundaries_box(&mut d, &mut p);
    assert_eq!(p.position, vec![v(1, 19, 30), v(5, 1, 30)]);
    assert_eq!(p.velocity, vec![v(1, 2, 3), v(4, 5, 6)]);
}

#[test]
fn crossing_the_upper_face_loses_the_shear_velocity() {
    // shear rate 2, height 20: the jump is 40
    let d = DomainData::new(v(10 * ONE, 20 * ONE, 30 * ONE), Index3 { x: 1, y: 1, z: 1 }, 2 * ONE).unwrap();
    let f = d.frame();
    let (pos, vel) = sheared_wrap(&f, 3 * ONE, v(4 * ONE, 21 * ONE, 5 * ONE), v(7 * ONE, ONE, ONE)).unwrap();
    assert_eq!(vel, v(7 * ONE - 40 * ONE, ONE, ONE));
    assert_eq!(pos, v(ONE, ONE, 5 * ONE));
    // the offset carries the entity below zero: it comes back in at the other side
    let (pos, _) = sheared_wrap(&f, 6 * ONE, v(4 * ONE, 21 * ONE, 5 * ONE), v(0, 0, 0)).unwrap();
    assert_eq!(pos, v(8 * ONE, ONE, 5 * ONE));
    // the place less the offset is a whole extent: the entity lands on the upper edge
    let (pos, _) = sheared_wrap(&f, 4 * ONE, v(4 * ONE, 21 * ONE, 5 * ONE), v(0, 0, 0)).unwrap();
    assert_eq!(pos.x, 10 * ONE);
}

#[test]
fn crossing_the_lower_face_gains_the_shear_velocity() {
    let d = DomainData::new(v(10 * ONE, 20 * ONE, 30 * ONE), Index3 { x: 1, y: 1, z: 1 }, 2 * ONE).unwrap();
    let f = d.frame();
    let (pos, vel) = sheared_wrap(&f, 3 * ONE, v(9 * ONE, -ONE, 31 * ONE), v(7 * ONE, ONE, ONE)).unwrap();
    assert_eq!(vel, v(47 * ONE, ONE, ONE));
    assert_eq!(pos, v(2 * ONE, 19 * ONE, ONE));
}

#[test]
fn entities_inside_are_left_alone() {
    let d = DomainData::new(v(10 * ONE, 20 * ONE, 30 * ONE), Index3 { x: 1, y: 1, z: 1 }, 2 * ONE).unwrap();
    let mut p = store(&[v(ONE, ONE, ONE), v(4 * ONE, 21 * ONE, 5 * ONE)], &[v(1, 2, 3), v(7 * ONE, ONE, ONE)]);
    assert_eq!(lees_edwards_boundaries(&d, &mut p, 0, 3 * ONE), Ok(()));
    assert_eq!(p.position, vec![v(ONE, ONE, ONE), v(ONE, ONE, 5 * ONE)]);
    assert_eq!(p.velocity, vec![v(1, 2, 3), v(-33 * ONE, ONE, ONE)]);
}

#[test]
fn a_velocity_out_of_range_fails_and_changes_nothing() {
    let d = DomainData::new(v(10 * ONE, 20 * ONE, 30 * ONE), Index3 { x: 1, y: 1, z: 1 }, 2 * ONE).unwrap();
    let mut p = store(
        &[v(11 * ONE, ONE, ONE), v(4 * ONE, 21 * ONE, 5 * ONE)],
        &[v(1, 2, 3), v(i64::MIN + 5, ONE, ONE)],
    );
    assert_eq!(lees_edwards_boundaries(&d, &mut p, 0, 3 * ONE), Err(NumericError::OutOfRange));
    assert_eq!(p.position, vec![v(11 * ONE, ONE, ONE), v(4 * ONE, 21 * ONE, 5 * ONE)]);
    assert_eq!(p.velocity, vec![v(1, 2, 3), v(i64::MIN + 5, ONE, ONE)]);
}
