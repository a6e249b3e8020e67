use dem_engine::jacobi::{jacobi, jacobi_within, principal, rotation, Eigen, EigenError};
use dem_engine::rigid_body::RigidBodySphereData;
use dem_engine::vector::{Mat3, Vec3};

const ONE: i64 = 1_000_000;

fn v(x: i64, y: i64, z: i64) -> Vec3 {
    Vec3 { x, y, z }
}

fn body(tensor: Mat3) -> RigidBodySphereData {
    RigidBodySphereData {
        radius: Vec::new(),
        position: Vec::new(),
        local_position: Vec::new(),
        velocity: Vec::new(),
        wrap: Vec::new(),
        density: 0,
        mass: 0,
        volume: 0,
        local_inertia_tensor: tensor,
        diagonal_inertia: v(7, 7, 7),
        ex_space: v(0, 0, 0),
        ey_space: v(0, 0, 0),
        ez_space: v(0, 0, 0),
    }
}

fn residual(tensor: &Mat3, e: &Eigen, column: usize) -> i64 {
    let rows = [tensor.x, tensor.y, tensor.z];
    let vec = [e.vectors.x.at(column), e.vectors.y.at(column), e.vectors.z.at(column)];
    let value = e.values.at(column);
    let mut worst = 0;
    for r in rows.iter().enumerate() {
        let (i, row) = r;
        let av = (row.x as i128 * vec[0] as i128 + row.y as i128 * vec[1] as i128 + row.z as i128 * vec[2] as i128)
            / ONE as i128;
        let lv = value as i128 * vec[i] as i128 / ONE as i128;
        worst = worst.max((av - lv).abs() as i64);
    }
    worst
}

#[test]
fn diagonal_tensor_is_left_as_it_is() {
    let t = Mat3 { x: v(3 * ONE, 0, 0), y: v(0, 5 * ONE, 0), z: v(0, 0, 2 * ONE) };
    let e = jacobi(&t).unwrap();
    assert_eq!(e.values, v(3 * ONE, 5 * ONE, 2 * ONE));
    assert_eq!(e.vectors, Mat3 { x: v(ONE, 0, 0), y: v(0, ONE, 0), z: v(0, 0, ONE) });
    let zero = Mat3 { x: v(0, 0, 0), y: v(0, 0, 0), z: v(0, 0, 0) };
    assert_eq!(jacobi(&zero).unwrap().values, v(0, 0, 0));
}

#[test]
fn a_turn_in_one_plane_is_found_exactly() {
    let t = Mat3 { x: v(2 * ONE, ONE, 0), y: v(ONE, 2 * ONE, 0), z: v(0, 0, 5 * ONE) };
    let e = jacobi(&t).unwrap();
    assert_eq!(e.values, v(ONE, 3 * ONE, 5 * ONE));
    assert_eq!(
        e.vectors,
        Mat3 { x: v(707_108, 707_107, 0), y: v(-707_107, 707_108, 0), z: v(0, 0, ONE) }
    );
}

#[test]
fn a_full_tensor_is_brought_to_its_principal_axes() {
    let t = Mat3 {
        x: v(4 * ONE, ONE, 500_000),
        y: v(ONE, 3 * ONE, -250_000),
        z: v(500_000, -250_000, 2 * ONE),
    };
    let e = jacobi(&t).unwrap();
    assert_eq!(e.values, v(4_651_874, 2_689_795, 1_658_331));
    assert_eq!(
        e.vectors,
        Mat3 {
            x: v(857_420, -369_613, -358_078),
            y: v(501_752, 755_050, 422_076),
            z: v(114_363, -541_563, 832_846),
        }
    );
    // the trace is kept exactly, and every pair solves the eigen equation to a few parts in a million
    assert_eq!(e.values.x + e.values.y + e.values.z, 9 * ONE);
    for column in 0..3 {
        assert!(residual(&t, &e, column) <= 10, "column {}", column);
        let len2: i128 = (0..3)
            .map(|i| {
                let c = [e.vectors.x, e.vectors.y, e.vectors.z][i].at(column) as i128;
                c * c
            })
            .sum();
        assert!((len2 - (ONE as i128) * (ONE as i128)).abs() < 10 * ONE as i128);
    }
}

#[test]
fn entries_out_of_range_are_reported() {
    let t = Mat3 { x: v(0, i64::MAX, i64::MAX), y: v(0, 0, 0), z: v(0, 0, 0) };
    assert_eq!(jacobi(&t), Err(EigenError::OutOfRange));
    let t = Mat3 { x: v(i64::MAX, ONE, 0), y: v(ONE, i64::MIN, 0), z: v(0, 0, 0) };
    assert_eq!(jacobi(&t), Err(EigenError::OutOfRange));
}

#[test]
fn one_rotation_mixes_two_entries() {
    let m = Mat3 { x: v(0, 3 * ONE, 4 * ONE), y: v(0, 0, 0), z: v(0, 0, 0) };
    // s = 0.6, tau = 1/3: g - s (h + g tau) and h + s (g - h tau)
    let r = rotation(m, 0, 1, 0, 2, 600_000, 333_333).unwrap();
    assert_eq!(r.x.y, 1);
    assert_eq!(r.x.z, 5 * ONE);
    assert_eq!((r.x.x, r.y, r.z), (0, v(0, 0, 0), v(0, 0, 0)));
    let b = body(m);
    assert_eq!(b.roation_jacobi(m, 0, 1, 0, 2, 600_000, 333_333), Some(r));
}

#[test]
fn small_moments_are_dropped_and_the_axes_made_right_handed() {
    let e = Eigen {
        vectors: Mat3 { x: v(ONE, 0, 0), y: v(0, ONE, 0), z: v(0, 0, -ONE) },
        values: v(50_000_000 * ONE, 4_999_999, 5 * ONE),
    };
    let (moments, axes) = principal(&e).unwrap();
    // the floor is a ten-millionth of the greatest: 5
    assert_eq!(moments, v(50_000_000 * ONE, 0, 5 * ONE));
    assert_eq!(axes.ex, v(ONE, 0, 0));
    assert_eq!(axes.ey, v(0, ONE, 0));
    assert_eq!(axes.ez, v(0, 0, ONE));
    let right = Eigen { vectors: Mat3 { x: v(0, -ONE, 0), y: v(ONE, 0, 0), z: v(0, 0, ONE) }, values: v(1, 1, 1) };
    let (_, axes) = principal(&right).unwrap();
    assert_eq!((axes.ex, axes.ey, axes.ez), (v(0, ONE, 0), v(-ONE, 0, 0), v(0, 0, ONE)));
}

#[test]
fn eigen_system_is_recorded_on_the_body() {
    let t = Mat3 { x: v(2 * ONE, ONE, 0), y: v(ONE, 2 * ONE, 0), z: v(0, 0, 5 * ONE) };
    let mut b = body(t);
    assert_eq!(b.get_jacobi().unwrap().values, v(ONE, 3 * ONE, 5 * ONE));
    assert_eq!(b.calculate_eigen_system(), Ok(()));
    assert_eq!(b.diagonal_inertia, v(ONE, 3 * ONE, 5 * ONE));
    assert_eq!(b.ex_space, v(707_108, -707_107, 0));
    assert_eq!(b.ey_space, v(707_107, 707_108, 0));
    assert_eq!(b.ez_space, v(0, 0, ONE));
    assert_eq!(b.local_inertia_tensor, t);
}

#[test]
fn a_failed_eigen_system_changes_nothing() {
    let t = Mat3 { x: v(0, i64::MAX, i64::MAX), y: v(0, 0, 0), z: v(0, 0, 0) };
    let mut b = body(t);
    assert_eq!(b.calculate_eigen_system(), Err(EigenError::OutOfRange));
    assert_eq!(b.diagonal_inertia, v(7, 7, 7));
    assert_eq!(b.ex_space, v(0, 0, 0));
}

#[test]
fn too_few_sweeps_do_not_converge() {
    let t = Mat3 {
        x: v(4 * ONE, ONE, 500_000),
        y: v(ONE, 3 * ONE, -250_000),
        z: v(500_000, -250_000, 2 * ONE),
    };
    assert_eq!(jacobi_within(&t, 0), Err(EigenError::NotConverged));
    assert_eq!(jacobi_within(&t, 1), Err(EigenError::NotConverged));
    assert_eq!(jacobi_within(&t, 4), Err(EigenError::NotConverged));
    // the fifth sweep finds nothing left to turn
    assert_eq!(jacobi_within(&t, 5), jacobi(&t));
    assert!(jacobi(&t).is_ok());
    // a diagonal tensor needs no turn at all, but one look
    let d = Mat3 { x: v(ONE, 0, 0), y: v(0, 2 * ONE, 0), z: v(0, 0, 3 * ONE) };
    assert_eq!(jacobi_within(&d, 0), Err(EigenError::NotConverged));
    assert!(jacobi_within(&d, 1).is_ok());
}
