use dem_engine::inertia::{inside, mass_properties};
use dem_engine::rigid_body::{RigidBodySphereData, Wrap3};
use dem_engine::vector::{Mat3, Vec3};

const ONE: i64 = 1_000_000;

fn v(x: i64, y: i64, z: i64) -> Vec3 {
    Vec3 { x, y, z }
}

fn zero_mat() -> Mat3 {
    Mat3 { x: v(0, 0, 0), y: v(0, 0, 0), z: v(0, 0, 0) }
}

fn body(spheres: &[(Vec3, i64)]) -> RigidBodySphereData {
    RigidBodySphereData {
        radius: spheres.iter().map(|s| s.1).collect(),
        position: spheres.iter().map(|s| s.0).collect(),
        local_position: spheres.iter().map(|s| s.0).collect(),
        velocity: spheres.iter().map(|_| v(0, 0, 0)).collect(),
        wrap: spheres.iter().map(|_| Wrap3 { x: 0, y: 0, z: 0 }).collect(),
        density: 0,
        mass: 0,
        volume: 0,
        local_inertia_tensor: zero_mat(),
        diagonal_inertia: v(0, 0, 0),
        ex_space: v(ONE, 0, 0),
        ey_space: v(0, ONE, 0),
        ez_space: v(0, 0, ONE),
    }
}

#[test]
fn bounding_box_holds_every_sphere() {
    let b = body(&[(v(0, 0, 0), ONE), (v(3 * ONE, -ONE, 0), 2 * ONE), (v(ONE, ONE, ONE), 500_000)]);
    assert_eq!(b.get_aabb(), Some((v(-ONE, -3 * ONE, -2 * ONE), v(5 * ONE, 1_500_000, 2 * ONE))));
    let far = body(&[(v(i64::MAX, 0, 0), ONE)]);
    assert_eq!(far.get_aabb(), None);
}

#[test]
fn a_point_is_inside_where_it_is_closer_than_a_radius() {
    let positions = vec![v(0, 0, 0), v(3 * ONE, 0, 0)];
    let radii = vec![ONE, 2 * ONE];
    assert_eq!(inside(&positions, &radii, &v(999_999, 0, 0)), Some(true));
    // on the surface of both spheres: inside neither
    assert_eq!(inside(&positions, &radii, &v(ONE, 0, 0)), Some(false));
    assert_eq!(inside(&positions, &radii, &v(1_000_001, 0, 0)), Some(true));
    assert_eq!(inside(&positions, &radii, &v(-ONE, 0, 0)), Some(false));
    assert_eq!(inside(&positions, &radii, &v(0, ONE, 0)), Some(false));
    assert_eq!(inside(&positions, &radii, &v(0, 999_999, 0)), Some(true));
    assert_eq!(inside(&positions, &radii, &v(5 * ONE, 0, 0)), Some(false));
    assert_eq!(inside(&positions, &radii, &v(i64::MIN, 0, 0)), None);
}

#[test]
fn mass_properties_of_given_points() {
    // four points at the corners of a square of side 2 in the plane z = 1
    let points = vec![v(0, 0, ONE), v(2 * ONE, 0, ONE), v(0, 2 * ONE, ONE), v(2 * ONE, 2 * ONE, ONE)];
    let length = v(4 * ONE, 4 * ONE, 2 * ONE);
    let m = mass_properties(&points, &length, 16, 3 * ONE, &zero_mat()).unwrap();
    assert_eq!(m.center, v(ONE, ONE, ONE));
    // a quarter of the box of volume 32, and three times that as mass
    assert_eq!(m.volume, 8 * ONE);
    assert_eq!(m.mass, 24 * ONE);
    // each point is at (+-1, +-1, 0) from the centre: sums of squares 4, 4, 8; mixed sums cancel
    assert_eq!(
        m.tensor,
        Mat3 { x: v(24 * ONE, 0, 0), y: v(0, 24 * ONE, 0), z: v(0, 0, 48 * ONE) }
    );
    assert_eq!(mass_properties(&Vec::new(), &length, 16, 3 * ONE, &zero_mat()), None);
    assert_eq!(mass_properties(&points, &length, 0, 3 * ONE, &zero_mat()), None);
}

#[test]
fn mixed_moments_enter_the_tensor_negated() {
    let points = vec![v(0, 0, 0), v(2 * ONE, 2 * ONE, 0)];
    let start = Mat3 { x: v(ONE, 0, 0), y: v(0, 0, 0), z: v(0, 0, 0) };
    let m = mass_properties(&points, &v(ONE, ONE, ONE), 2, ONE, &start).unwrap();
    assert_eq!(m.center, v(ONE, ONE, 0));
    assert_eq!(m.mass, ONE);
    // points at (-1,-1,0) and (1,1,0): x*y sums to 2, squares to (2, 2, 4); mass over count is a half
    assert_eq!(
        m.tensor,
        Mat3 { x: v(2 * ONE, -ONE, 0), y: v(-ONE, ONE, 0), z: v(0, 0, 2 * ONE) }
    );
}

#[test]
fn initializing_from_points_moves_the_origin_to_the_centre_of_mass() {
    let mut b = body(&[(v(0, 0, 0), ONE), (v(2 * ONE, 0, 0), ONE)]);
    let points = vec![v(0, 0, 0), v(2 * ONE, 0, 0), v(ONE, 500_000, 0), v(ONE, -500_000, 0)];
    assert_eq!(b.initialize_from(2 * ONE, &points, 8), Ok(()));
    assert_eq!(b.position, vec![v(-ONE, 0, 0), v(ONE, 0, 0)]);
    assert_eq!(b.local_position, vec![v(-ONE, 0, 0), v(ONE, 0, 0)]);
    // the box is 4 x 2 x 2; half of the samples fell inside
    assert_eq!(b.volume, 8 * ONE);
    assert_eq!(b.density, 2 * ONE);
    assert_eq!(b.mass, 16 * ONE);
    assert_eq!(b.diagonal_inertia, v(b.local_inertia_tensor.x.x, b.local_inertia_tensor.y.y, b.local_inertia_tensor.z.z));
    assert_eq!(b.diagonal_inertia, v(2 * ONE, 8 * ONE, 10 * ONE));
}

#[test]
fn initializing_without_points_fails_and_changes_nothing() {
    let mut b = body(&[(v(0, 0, 0), ONE), (v(2 * ONE, 0, 0), ONE)]);
    assert!(b.initialize_from(2 * ONE, &Vec::new(), 8).is_err());
    assert_eq!(b.position, vec![v(0, 0, 0), v(2 * ONE, 0, 0)]);
    assert_eq!(b.mass, 0);
}

#[test]
fn sampling_a_single_sphere_finds_its_volume() {
    let mut b = body(&[(v(5 * ONE, 5 * ONE, 5 * ONE), ONE)]);
    assert_eq!(b.initialize_with(ONE, 200_000), Ok(()));
    // the volume of the unit sphere is 4.18879; sampling is within a few percent of it
    assert!((b.volume - 4_188_790).abs() < 100_000, "volume {}", b.volume);
    assert_eq!(b.mass, b.volume);
    // the centre of mass is the centre of the sphere, which becomes the origin
    assert!(b.position[0].x.abs() < 20_000 && b.position[0].y.abs() < 20_000 && b.position[0].z.abs() < 20_000);
    assert_eq!(b.position, b.local_position);
    // the moment of inertia of a sphere is 2/5 m r^2 about every axis
    let expected = 2 * b.mass / 5;
    for moment in [b.diagonal_inertia.x, b.diagonal_inertia.y, b.diagonal_inertia.z] {
        assert!((moment - expected).abs() < expected / 20, "moment {} for {}", moment, expected);
    }
    assert!(b.local_inertia_tensor.x.y.abs() < expected / 20);
    assert_eq!(b.local_inertia_tensor.x.y, b.local_inertia_tensor.y.x);
}

#[test]
fn sampling_a_flat_box_is_refused() {
    let mut b = body(&[(v(0, 0, 0), 0)]);
    assert!(b.initialize_with(ONE, 10).is_err());
}
