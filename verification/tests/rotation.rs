use dem_engine::dynamics::{body_final, body_initial, BodyMotion};
use dem_engine::rigid_body::{axes_of, Axes};
use dem_engine::rotation::{extrapolated, length, normalized, richardson, stepped, vecquat};
use dem_engine::vector::{Quat, Vec3};

const ONE: i64 = 1_000_000;
const IDENTITY: Quat = Quat { w: ONE, x: 0, y: 0, z: 0 };

fn v(x: i64, y: i64, z: i64) -> Vec3 {
    Vec3 { x, y, z }
}

fn square_sum(q: &Quat) -> i128 {
    [q.w, q.x, q.y, q.z].iter().map(|c| (*c as i128) * (*c as i128)).sum()
}

#[test]
fn length_is_the_root_of_the_four_squares() {
    assert_eq!(length(&Quat { w: 2, x: 4, y: 5, z: 6 }), Some(9));
    assert_eq!(length(&Quat { w: 1, x: 1, y: 1, z: 2 }), Some(2));
    assert_eq!(length(&IDENTITY), Some(ONE));
    assert_eq!(length(&Quat { w: i64::MAX, x: 0, y: 0, z: 0 }), None);
    // the length 2^63 is one more than an i64 holds
    assert_eq!(length(&Quat { w: 1 << 62, x: 1 << 62, y: 1 << 62, z: 1 << 62 }), None);
    assert_eq!(length(&Quat { w: 1 << 62, x: 1 << 62, y: 1 << 62, z: 0 }), Some(7_987_674_492_471_257_550));
}

#[test]
fn normalizing_gives_unit_length() {
    assert_eq!(normalized(&Quat { w: 3, x: 0, y: 4, z: 0 }), Some(Quat { w: 600_000, x: 0, y: 800_000, z: 0 }));
    assert_eq!(normalized(&Quat { w: 0, x: 0, y: 0, z: -7 }), Some(Quat { w: 0, x: 0, y: 0, z: -ONE }));
    assert_eq!(normalized(&Quat { w: 0, x: 0, y: 0, z: 0 }), None);
    let q = normalized(&Quat { w: 123_456, x: -654_321, y: 777, z: 999_999 }).unwrap();
    let s = square_sum(&q);
    let one = (ONE as i128) * (ONE as i128);
    assert!(s >= one - 8 * ONE as i128 && s < ((ONE + 1) as i128) * ((ONE + 1) as i128));
}

#[test]
fn rate_of_a_rotation_is_omega_times_the_quaternion() {
    // at the identity the rate is the angular velocity itself
    assert_eq!(vecquat(&v(ONE, 2 * ONE, 3 * ONE), &IDENTITY), Some(Quat { w: 0, x: ONE, y: 2 * ONE, z: 3 * ONE }));
    let q = Quat { w: 0, x: ONE, y: 0, z: 0 };
    assert_eq!(vecquat(&v(ONE, 2 * ONE, 3 * ONE), &q), Some(Quat { w: -ONE, x: 0, y: 3 * ONE, z: -2 * ONE }));
}

#[test]
fn a_step_adds_the_rate_and_normalizes() {
    let rate = Quat { w: 0, x: 0, y: 0, z: ONE };
    // (1, 0, 0, 0.75) has the length 1.25
    assert_eq!(stepped(&IDENTITY, &rate, 750_000), Some(Quat { w: 800_000, x: 0, y: 0, z: 600_000 }));
    assert_eq!(
        extrapolated(&Quat { w: 800_000, x: 0, y: 0, z: 600_000 }, &IDENTITY),
        normalized(&Quat { w: 600_000, x: 0, y: 0, z: 1_200_000 })
    );
}

#[test]
fn a_body_without_spin_keeps_its_rotation() {
    let q = Quat { w: 600_000, x: 0, y: 800_000, z: 0 };
    let r = richardson(&q, &v(0, 0, 0), &v(0, 0, 0), &v(ONE, ONE, ONE), 5_000).unwrap();
    assert_eq!(r, q);
}

#[test]
fn rotation_keeps_unit_length_over_many_steps() {
    // a body with three different moments, spinning about no principal axis
    let inertia = v(ONE, 2 * ONE, 3 * ONE);
    let momentum = v(700_000, -1_300_000, 2_100_000);
    let mut q = IDENTITY;
    let one = (ONE as i128) * (ONE as i128);
    for step in 0..5_000 {
        let axes = axes_of(&q).unwrap();
        let omega = dem_engine::dynamics::angmom_to_omega(&momentum, &axes, &inertia).unwrap();
        q = richardson(&q, &momentum, &omega, &inertia, 2_500).unwrap();
        let s = square_sum(&q);
        assert!(s >= one - 8 * (ONE as i128), "at step {}: {}", step, s);
        assert!(s < ((ONE + 1) as i128) * ((ONE + 1) as i128), "at step {}: {}", step, s);
    }
    assert_ne!(q, IDENTITY);
}

#[test]
fn steady_spin_about_an_axis_turns_by_omega_times_time() {
    // spin 2 about z for the time 0.5 in steps of 0.001: a turn by one radian
    let inertia = v(ONE, ONE, ONE);
    let momentum = v(0, 0, 2 * ONE);
    let omega = v(0, 0, 2 * ONE);
    let mut q = IDENTITY;
    for _ in 0..500 {
        q = richardson(&q, &momentum, &omega, &inertia, 500).unwrap();
    }
    let half: f64 = 0.5;
    // every step rounds toward zero at the sixth decimal, which costs about two parts in a thousand here
    assert!(((q.w as f64) / 1e6 - half.cos()).abs() < 2e-3, "w {}", q.w);
    assert!(((q.z as f64) / 1e6 - half.sin()).abs() < 2e-3, "z {}", q.z);
    assert!(q.z > 470_000 && q.w > 870_000);
    assert_eq!((q.x, q.y), (0, 0));
}

fn resting() -> BodyMotion {
    BodyMotion {
        position: v(ONE, 2 * ONE, 3 * ONE),
        velocity: v(0, 0, 0),
        angular_moment: v(0, 0, 0),
        omega: v(0, 0, 0),
        quaternion: IDENTITY,
        axes: Axes { ex: v(ONE, 0, 0), ey: v(0, ONE, 0), ez: v(0, 0, ONE) },
    }
}

#[test]
fn first_half_step_of_a_body_kicks_drifts_and_turns() {
    let b = resting();
    let next = body_initial(&b, &v(4 * ONE, 0, 0), &v(0, 0, 6 * ONE), 2 * ONE, &v(ONE, ONE, 3 * ONE), 100_000).unwrap();
    assert_eq!(next.velocity, v(100_000, 0, 0));
    assert_eq!(next.position, v(1_010_000, 2 * ONE, 3 * ONE));
    // half of 0.1 times the torque 6
    assert_eq!(next.angular_moment, v(0, 0, 300_000));
    assert_eq!(next.omega, v(0, 0, 100_000));
    // a turn about z by about 0.1 * 0.1 = 0.01 radian
    assert_eq!((next.quaternion.x, next.quaternion.y), (0, 0));
    assert!((next.quaternion.z - 5_000).abs() <= 6, "z {}", next.quaternion.z);
    assert_eq!(Some(next.axes), axes_of(&next.quaternion));
    assert_eq!(next.axes.ez, v(0, 0, ONE));
}

#[test]
fn second_half_step_of_a_body_leaves_place_and_rotation() {
    let b = resting();
    let next = body_final(&b, &v(4 * ONE, 0, 0), &v(0, 0, 6 * ONE), 2 * ONE, &v(ONE, ONE, 3 * ONE), 100_000).unwrap();
    assert_eq!(next.velocity, v(100_000, 0, 0));
    assert_eq!(next.angular_moment, v(0, 0, 300_000));
    assert_eq!(next.omega, v(0, 0, 100_000));
    assert_eq!(next.position, b.position);
    assert_eq!(next.quaternion, b.quaternion);
    assert_eq!(body_final(&b, &v(4 * ONE, 0, 0), &v(0, 0, 6 * ONE), 0, &v(ONE, ONE, 3 * ONE), 100_000), None);
}
