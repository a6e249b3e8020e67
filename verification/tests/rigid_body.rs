use dem_engine::boundary::{unwrapped, wrap_position_counted};
use dem_engine::dynamics::angmom_to_omega;
use dem_engine::fixed::NumericError;
use dem_engine::rigid_body::{axes_of, to_space, Axes, RigidBodiesData, RigidBodySphereData, Wrap3};
use dem_engine::vector::{Mat3, Quat, Vec3};

const ONE: i64 = 1_000_000;

fn v(x: i64, y: i64, z: i64) -> Vec3 {
    Vec3 { x, y, z }
}

fn zero_mat() -> Mat3 {
    Mat3 { x: v(0, 0, 0), y: v(0, 0, 0), z: v(0, 0, 0) }
}

fn dumbbell() -> RigidBodySphereData {
    RigidBodySphereData {
        radius: vec![ONE, ONE],
        position: vec![v(0, 0, 0), v(0, 0, 0)],
        local_position: vec![v(ONE, 0, 0), v(-ONE, 0, 0)],
        velocity: vec![v(0, 0, 0), v(0, 0, 0)],
        wrap: vec![Wrap3 { x: 0, y: 0, z: 0 }, Wrap3 { x: 0, y: 0, z: 0 }],
        density: ONE,
        mass: ONE,
        volume: ONE,
        local_inertia_tensor: zero_mat(),
        diagonal_inertia: v(ONE, ONE, ONE),
        ex_space: v(ONE, 0, 0),
        ey_space: v(0, ONE, 0),
        ez_space: v(0, 0, ONE),
    }
}

fn bodies(quaternions: &[Quat]) -> RigidBodiesData {
    let n = quaternions.len();
    RigidBodiesData {
        max_radius: ONE,
        body_data: (0..n).map(|_| dumbbell()).collect(),
        youngs_mod: vec![ONE; n],
        poisson_ratio: vec![0; n],
        position: (0..n).map(|i| v(10 * ONE * (i as i64 + 1), 5 * ONE, 0)).collect(),
        velocity: vec![v(ONE, 0, 0); n],
        force: vec![v(0, 0, 0); n],
        moment_of_inertia_tensor: vec![zero_mat(); n],
        diagonal_inertia: vec![v(ONE, ONE, ONE); n],
        quaternion: quaternions.to_vec(),
        omega: vec![v(0, 0, 2 * ONE); n],
        torque: vec![v(0, 0, 0); n],
        angular_moment: vec![v(0, 0, 0); n],
        ex_space: vec![v(0, 0, 0); n],
        ey_space: vec![v(0, 0, 0); n],
        ez_space: vec![v(0, 0, 0); n],
        is_collision: vec![false; n],
        materials: Vec::new(),
        sphere_material: vec![0; n],
        restitution_coefficient: ONE,
        beta: 0,
        friction: 0,
        volume_fraction: 0,
    }
}

const IDENTITY: Quat = Quat { w: ONE, x: 0, y: 0, z: 0 };
/// A quarter turn about z: cos 45, 0, 0, sin 45.
const QUARTER_Z: Quat = Quat { w: 707_107, x: 0, y: 0, z: 707_107 };

#[test]
fn identity_rotation_gives_the_axes_of_space() {
    let a = axes_of(&IDENTITY).unwrap();
    assert_eq!((a.ex, a.ey, a.ez), (v(ONE, 0, 0), v(0, ONE, 0), v(0, 0, ONE)));
}

#[test]
fn quarter_turn_about_z_turns_x_into_y() {
    let a = axes_of(&QUARTER_Z).unwrap();
    assert_eq!(a.ex, v(0, 1_000_000, 0));
    assert_eq!(a.ey, v(-1_000_000, 0, 0));
    assert_eq!(a.ez, v(1_000_000, 0, 0).cross(&v(0, 1_000_000, 0)).unwrap());
    assert_eq!(to_space(&a, &v(2 * ONE, 0, ONE)), Some(v(0, 2 * ONE, ONE)));
}

#[test]
fn axes_of_a_huge_quaternion_do_not_exist() {
    assert_eq!(axes_of(&Quat { w: i64::MAX, x: i64::MAX, y: 0, z: 0 }), None);
}

#[test]
fn spheres_follow_the_body() {
    let mut b = bodies(&[IDENTITY, QUARTER_Z]);
    assert_eq!(b.update_one_body_spheres_positions(0), Ok(()));
    assert_eq!(b.body_data[0].position, vec![v(11 * ONE, 5 * ONE, 0), v(9 * ONE, 5 * ONE, 0)]);
    // omega (0,0,2) x lever (1,0,0) = (0,2,0)
    assert_eq!(b.body_data[0].velocity, vec![v(ONE, 2 * ONE, 0), v(ONE, -2 * ONE, 0)]);
    // the other body is untouched
    assert_eq!(b.body_data[1].position, vec![v(0, 0, 0), v(0, 0, 0)]);
    assert_eq!(b.update_all_body_spheres_positions(), Ok(()));
    assert_eq!(b.body_data[1].position, vec![v(20 * ONE, 6 * ONE, 0), v(20 * ONE, 4 * ONE, 0)]);
    assert_eq!(b.body_data[1].velocity, vec![v(-ONE, 0, 0), v(3 * ONE, 0, 0)]);
    assert_eq!(b.body_data[1].local_position, vec![v(ONE, 0, 0), v(-ONE, 0, 0)]);
}

#[test]
fn one_body_out_of_range_fails_all_and_changes_nothing() {
    let mut b = bodies(&[IDENTITY, QUARTER_Z]);
    b.position[1] = v(i64::MAX, i64::MAX, 0);
    assert_eq!(b.update_all_body_spheres_positions(), Err(NumericError::OutOfRange));
    assert_eq!(b.body_data[0].position, vec![v(0, 0, 0), v(0, 0, 0)]);
    assert_eq!(b.update_one_body_spheres_positions(1), Err(NumericError::OutOfRange));
    assert_eq!(b.body_data[1].position, vec![v(0, 0, 0), v(0, 0, 0)]);
    assert_eq!(b.update_one_body_spheres_positions(0), Ok(()));
}

#[test]
fn body_axes_are_set_from_the_rotation() {
    let mut b = bodies(&[IDENTITY, QUARTER_Z]);
    assert_eq!(b.update_space_exyz_with_q(1), Ok(()));
    assert_eq!(b.ex_space, vec![v(0, 0, 0), v(0, ONE, 0)]);
    assert_eq!(b.ey_space, vec![v(0, 0, 0), v(-ONE, 0, 0)]);
    assert_eq!(b.update_all_space_exyz_with_q(), Ok(()));
    assert_eq!(b.ex_space, vec![v(ONE, 0, 0), v(0, ONE, 0)]);
    assert_eq!(b.ez_space, vec![v(0, 0, ONE), v(0, 0, ONE)]);
    b.quaternion[0] = Quat { w: i64::MAX, x: i64::MAX, y: 0, z: 0 };
    b.quaternion[1] = IDENTITY;
    assert_eq!(b.update_all_space_exyz_with_q(), Err(NumericError::OutOfRange));
    assert_eq!(b.ex_space, vec![v(ONE, 0, 0), v(0, ONE, 0)]);
}

#[test]
fn omega_of_an_aligned_body_is_momentum_over_inertia() {
    let axes = axes_of(&IDENTITY).unwrap();
    let w = angmom_to_omega(&v(6 * ONE, -3 * ONE, ONE), &axes, &v(2 * ONE, 4 * ONE, 3 * ONE));
    assert_eq!(w, Some(v(3 * ONE, -750_000, 333_333)));
}

#[test]
fn an_axis_without_inertia_does_not_spin() {
    let axes = axes_of(&IDENTITY).unwrap();
    let w = angmom_to_omega(&v(6 * ONE, -3 * ONE, ONE), &axes, &v(2 * ONE, 0, 3 * ONE));
    assert_eq!(w, Some(v(3 * ONE, 0, 333_333)));
}

#[test]
fn omega_of_a_turned_body_goes_through_the_body_frame() {
    let axes: Axes = axes_of(&QUARTER_Z).unwrap();
    // momentum along space x is along body -y; inertia about body y is 4
    let w = angmom_to_omega(&v(8 * ONE, 0, 0), &axes, &v(2 * ONE, 4 * ONE, 3 * ONE));
    assert_eq!(w, Some(v(2 * ONE, 0, 0)));
}

#[test]
fn wrapping_a_sphere_records_how_it_was_taken() {
    let domain = v(10 * ONE, 20 * ONE, 30 * ONE);
    let (wrapped, counts) = wrap_position_counted(v(11 * ONE, -ONE, 5 * ONE), domain);
    assert_eq!(wrapped, v(ONE, 19 * ONE, 5 * ONE));
    assert_eq!(counts, Wrap3 { x: 1, y: -1, z: 0 });
    assert_eq!(unwrapped(wrapped, counts, domain), Some(v(11 * ONE, -ONE, 5 * ONE)));
    assert_eq!(unwrapped(v(i64::MAX, 0, 0), Wrap3 { x: 1, y: 0, z: 0 }, domain), None);
}

#[test]
fn a_body_across_the_boundary_keeps_its_levers() {
    let domain = v(10 * ONE, 10 * ONE, 10 * ONE);
    let mut b = dumbbell();
    // the centre of the body is at 9.5; one sphere sticks out of the domain
    let center = v(9_500_000, 5 * ONE, 5 * ONE);
    b.position = vec![v(10_500_000, 5 * ONE, 5 * ONE), v(8_500_000, 5 * ONE, 5 * ONE)];
    b.wrap_spheres(domain);
    assert_eq!(b.position, vec![v(500_000, 5 * ONE, 5 * ONE), v(8_500_000, 5 * ONE, 5 * ONE)]);
    assert_eq!(b.wrap, vec![Wrap3 { x: 1, y: 0, z: 0 }, Wrap3 { x: 0, y: 0, z: 0 }]);
    assert_eq!(b.lever_arm(0, center, domain), Some(v(ONE, 0, 0)));
    assert_eq!(b.lever_arm(1, center, domain), Some(v(-ONE, 0, 0)));
    assert_eq!(b.local_position, vec![v(ONE, 0, 0), v(-ONE, 0, 0)]);
}

#[test]
fn half_steps_take_every_body_along() {
    let mut b = bodies(&[IDENTITY, QUARTER_Z]);
    for i in 0..2 {
        b.body_data[i].mass = 2 * ONE;
        b.force[i] = v(4 * ONE, 0, 0);
        b.torque[i] = v(0, 0, 6 * ONE);
        b.diagonal_inertia[i] = v(ONE, ONE, 3 * ONE);
        b.omega[i] = v(0, 0, 0);
    }
    assert_eq!(b.update_all_space_exyz_with_q(), Ok(()));
    let start = b.position.clone();
    assert_eq!(b.initial_half_step(100_000), Ok(()));
    // the velocity 1 gains 0.1, and the bodies move by 0.11
    assert_eq!(b.velocity, vec![v(1_100_000, 0, 0), v(1_100_000, 0, 0)]);
    assert_eq!(b.position[0], v(start[0].x + 110_000, start[0].y, start[0].z));
    assert_eq!(b.angular_moment, vec![v(0, 0, 300_000), v(0, 0, 300_000)]);
    assert_eq!(b.omega, vec![v(0, 0, 100_000), v(0, 0, 100_000)]);
    assert!(b.quaternion[0].z > 4_900 && b.quaternion[0].z < 5_100);
    assert!(b.quaternion[1].z > QUARTER_Z.z);
    assert_eq!(Some(dem_engine::rigid_body::Axes { ex: b.ex_space[1], ey: b.ey_space[1], ez: b.ez_space[1] }), axes_of(&b.quaternion[1]));
    let turned = b.quaternion.clone();
    assert_eq!(b.final_half_step(100_000), Ok(()));
    assert_eq!(b.velocity, vec![v(1_200_000, 0, 0), v(1_200_000, 0, 0)]);
    assert_eq!(b.angular_moment, vec![v(0, 0, 600_000), v(0, 0, 600_000)]);
    assert_eq!(b.omega, vec![v(0, 0, 200_000), v(0, 0, 200_000)]);
    assert_eq!(b.quaternion, turned);
    assert_eq!(b.position[0], v(start[0].x + 110_000, start[0].y, start[0].z));
}

#[test]
fn a_body_without_mass_fails_the_half_step_for_all() {
    let mut b = bodies(&[IDENTITY, QUARTER_Z]);
    assert_eq!(b.update_all_space_exyz_with_q(), Ok(()));
    b.body_data[1].mass = 0;
    let before = (b.position.clone(), b.velocity.clone(), b.quaternion.clone());
    assert_eq!(b.initial_half_step(100_000), Err(NumericError::OutOfRange));
    assert_eq!((b.position.clone(), b.velocity.clone(), b.quaternion.clone()), before);
    assert_eq!(b.final_half_step(100_000), Err(NumericError::OutOfRange));
}
