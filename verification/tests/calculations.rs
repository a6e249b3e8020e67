use dem_engine::calculations::{
    averaged, calc_collision_tensor, calc_kinetic_tensor, fluctuation, mean, sphere_kinetic_tensor, tensor_sum,
    vector_sum,
};
use dem_engine::domain::DomainData;
use dem_engine::rigid_body::{RigidBodiesData, RigidBodySphereData};
use dem_engine::sphere::{ForceData, Material, ParticleData};
use dem_engine::vector::{Index3, Mat3, Quat, Vec3};

const ONE: i64 = 1_000_000;

fn v(x: i64, y: i64, z: i64) -> Vec3 {
    Vec3 { x, y, z }
}

fn diag(x: i64, y: i64, z: i64) -> Mat3 {
    Mat3 { x: v(x, 0, 0), y: v(0, y, 0), z: v(0, 0, z) }
}

fn domain() -> DomainData {
    // volume 8
    DomainData::new(v(2 * ONE, 2 * ONE, 2 * ONE), Index3 { x: 1, y: 1, z: 1 }, 0).unwrap()
}

#[test]
fn sums_and_means() {
    let vs = vec![v(1, 2, 3), v(4, 5, 6), v(-2, 0, 1)];
    assert_eq!(vector_sum(&vs), Some(v(3, 7, 10)));
    assert_eq!(mean(&vs), Some(v(1, 2, 3)));
    assert_eq!(mean(&Vec::new()), None);
    assert_eq!(vector_sum(&vec![v(i64::MAX, 0, 0), v(1, 0, 0)]), None);
    assert_eq!(tensor_sum(&vec![diag(1, 2, 3), diag(10, 20, 30)]), Some(diag(11, 22, 33)));
    assert_eq!(tensor_sum(&Vec::new()), Some(diag(0, 0, 0)));
}

#[test]
fn fluctuation_is_mass_times_the_square_of_the_deviation() {
    let t = fluctuation(&v(3 * ONE, 0, ONE), &v(ONE, 0, 0), 2 * ONE).unwrap();
    assert_eq!(
        t,
        Mat3 { x: v(8 * ONE, 0, 4 * ONE), y: v(0, 0, 0), z: v(4 * ONE, 0, 2 * ONE) }
    );
}

#[test]
fn running_average_weighs_the_earlier_samples() {
    assert_eq!(averaged(&diag(0, 0, 0), 0, &diag(6, 6, 6)), Some(diag(6, 6, 6)));
    assert_eq!(averaged(&diag(6, 6, 6), 2, &diag(0, 3, 9)), Some(diag(4, 5, 7)));
    assert_eq!(averaged(&diag(6, 6, 6), i64::MAX, &diag(0, 3, 9)), None);
}

#[test]
fn kinetic_tensor_of_two_spheres() {
    let d = domain();
    let mut p = ParticleData::new(ONE, 0);
    let m = Material { radius: ONE, mass: 2 * ONE, youngs_mod: ONE, poisson_ratio: 0, density: ONE, id: 1 };
    p.add_material(m);
    p.add_sphere(&m, v(0, 0, 0), v(3 * ONE, 0, 0));
    p.add_sphere(&m, v(0, 0, 0), v(-ONE, 0, 0));
    // mean velocity 1; deviations +-2; 2 * 4 + 2 * 4 = 16 over the volume 8
    assert_eq!(sphere_kinetic_tensor(&p, &d, diag(0, 0, 0), 0), Some(diag(2 * ONE, 0, 0)));
    assert_eq!(sphere_kinetic_tensor(&p, &d, diag(8 * ONE, 0, 0), 2), Some(diag(6 * ONE, 0, 0)));
    let empty = ParticleData::new(ONE, 0);
    assert_eq!(sphere_kinetic_tensor(&empty, &d, diag(0, 0, 0), 0), None);
}

#[test]
fn kinetic_tensor_of_rigid_bodies_uses_the_body_masses() {
    let d = domain();
    let body = |mass: i64| RigidBodySphereData {
        radius: Vec::new(),
        position: Vec::new(),
        local_position: Vec::new(),
        velocity: Vec::new(),
        wrap: Vec::new(),
        density: ONE,
        mass,
        volume: ONE,
        local_inertia_tensor: diag(0, 0, 0),
        diagonal_inertia: v(0, 0, 0),
        ex_space: v(ONE, 0, 0),
        ey_space: v(0, ONE, 0),
        ez_space: v(0, 0, ONE),
    };
    let n = 2;
    let p = RigidBodiesData {
        max_radius: ONE,
        body_data: vec![body(2 * ONE), body(6 * ONE)],
        youngs_mod: vec![ONE; n],
        poisson_ratio: vec![0; n],
        position: vec![v(0, 0, 0); n],
        velocity: vec![v(0, 3 * ONE, 0), v(0, -ONE, 0)],
        force: vec![v(0, 0, 0); n],
        moment_of_inertia_tensor: vec![diag(0, 0, 0); n],
        diagonal_inertia: vec![v(ONE, ONE, ONE); n],
        quaternion: vec![Quat { w: ONE, x: 0, y: 0, z: 0 }; n],
        omega: vec![v(0, 0, 0); n],
        torque: vec![v(0, 0, 0); n],
        angular_moment: vec![v(0, 0, 0); n],
        ex_space: vec![v(ONE, 0, 0); n],
        ey_space: vec![v(0, ONE, 0); n],
        ez_space: vec![v(0, 0, ONE); n],
        is_collision: vec![false; n],
        materials: Vec::new(),
        sphere_material: vec![0; n],
        restitution_coefficient: ONE,
        beta: 0,
        friction: 0,
        volume_fraction: 0,
    };
    // (2 * 4 + 6 * 4) / 8 = 4
    assert_eq!(calc_kinetic_tensor(&p, &d, diag(0, 0, 0), 0), Some(diag(0, 4 * ONE, 0)));
}

#[test]
fn collision_tensor_sums_the_contacts() {
    let d = domain();
    let mut f = ForceData::new();
    f.forcedata.push(diag(8 * ONE, 0, 0));
    f.forcedata.push(diag(8 * ONE, 16 * ONE, 0));
    assert_eq!(calc_collision_tensor(&f, &d, diag(0, 0, 0), 0), Some(diag(2 * ONE, 2 * ONE, 0)));
    assert_eq!(calc_collision_tensor(&f, &d, diag(0, 0, 0), 1), Some(diag(ONE, ONE, 0)));
    let flat = DomainData::new(v(1, 1, 1), Index3 { x: 1, y: 1, z: 1 }, 0).unwrap();
    assert_eq!(calc_collision_tensor(&f, &flat, diag(0, 0, 0), 0), None);
}
