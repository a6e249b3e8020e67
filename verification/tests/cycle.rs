use dem_engine::domain::DomainData;
use dem_engine::fixed::NumericError;
use dem_engine::simulation::cycle::{clear_forces, cycle_step, due, next_offset, CycleState};
use dem_engine::sphere::{ForceData, Material, ParticleData};
use dem_engine::vector::{Index3, Mat3, Vec3};

const ONE: i64 = 1_000_000;

fn v(x: i64, y: i64, z: i64) -> Vec3 {
    Vec3 { x, y, z }
}

fn two_spheres(gap: i64) -> (DomainData, ParticleData) {
    let d = DomainData::new(v(20 * ONE, 20 * ONE, 20 * ONE), Index3 { x: 2, y: 2, z: 2 }, 0).unwrap();
    let mut p = ParticleData::new(ONE, 0);
    let m = Material::new(1, ONE, ONE, 1000 * ONE, 300_000).unwrap();
    p.add_material(m);
    p.add_sphere(&m, v(9 * ONE + gap / 2, 5 * ONE, 5 * ONE), v(0, 0, 0));
    p.add_sphere(&m, v(11 * ONE - gap / 2, 5 * ONE, 5 * ONE), v(0, 0, 0));
    (d, p)
}

#[test]
fn overlapping_spheres_repel_until_they_part() {
    // two equal spheres of radius 1, the centres 1.98 apart, at rest, without damping
    let (mut d, mut p) = two_spheres(20_000);
    let mut f = ForceData::new();
    let mut state = CycleState::new();
    let dt: i64 = 1_000;
    let mut distance = p.position[1].x - p.position[0].x;
    assert_eq!(distance, 1_980_000);
    let mut parted_at: Option<usize> = None;
    for step in 0..2000 {
        assert_eq!(cycle_step(&mut d, &mut p, &mut f, &mut state, dt), Ok(()));
        let now = p.position[1].x - p.position[0].x;
        assert!(now >= distance, "the spheres approach at step {}", step);
        distance = now;
        // equal and opposite at every step
        assert_eq!(p.force[0].x, -p.force[1].x);
        assert_eq!(p.velocity[0].x, -p.velocity[1].x);
        if distance >= 2 * ONE {
            parted_at = Some(step);
            break;
        }
        assert!(p.force[1].x > 0, "no repulsion at step {} with overlap left", step);
        assert!(p.is_collision[0] && p.is_collision[1]);
    }
    let parted_at = parted_at.expect("the spheres part within 2000 steps");
    assert!(parted_at > 10);
    let speed = p.velocity[1];
    assert!(speed.x > 0);
    for _ in 0..50 {
        assert_eq!(cycle_step(&mut d, &mut p, &mut f, &mut state, dt), Ok(()));
        assert_eq!(p.force, vec![v(0, 0, 0), v(0, 0, 0)]);
        assert_eq!(p.velocity, vec![v(-speed.x, 0, 0), speed]);
        assert_eq!(p.is_collision, vec![false, false]);
        assert!(f.forcedata.is_empty());
    }
    assert_eq!(p.position[0].y, 5 * ONE);
    assert_eq!(p.position[0].z, 5 * ONE);
}

#[test]
fn a_step_counts_itself_and_grows_the_offset() {
    let mut d = DomainData::new(v(10 * ONE, 20 * ONE, 10 * ONE), Index3 { x: 1, y: 1, z: 1 }, 2 * ONE).unwrap();
    let mut p = ParticleData::new(ONE, 0);
    let m = Material::new(1, ONE, ONE, 1000 * ONE, 300_000).unwrap();
    p.add_material(m);
    p.add_sphere(&m, v(5 * ONE, 5 * ONE, 5 * ONE), v(ONE, 0, 0));
    let mut f = ForceData::new();
    let mut state = CycleState::new();
    assert_eq!(cycle_step(&mut d, &mut p, &mut f, &mut state, 100_000), Ok(()));
    assert_eq!(state.average_reset_count, 1);
    // 0.1 * 2 * 20 = 4
    assert_eq!(state.ledisplace, 4 * ONE);
    // a single entity has no velocity fluctuation
    assert_eq!(state.kinetic_tensor, Mat3 { x: v(0, 0, 0), y: v(0, 0, 0), z: v(0, 0, 0) });
    assert_eq!(p.position[0], v(5_100_000, 5 * ONE, 5 * ONE));
    assert_eq!(cycle_step(&mut d, &mut p, &mut f, &mut state, 100_000), Ok(()));
    assert_eq!(cycle_step(&mut d, &mut p, &mut f, &mut state, 100_000), Ok(()));
    assert_eq!(state.average_reset_count, 3);
    // 12 wraps to 2 in a domain 10 long
    assert_eq!(state.ledisplace, 2 * ONE);
    state.clear_averages();
    assert_eq!(state.average_reset_count, 0);
    assert_eq!(state.ledisplace, 2 * ONE);
}

#[test]
fn a_failed_step_leaves_everything_as_it_was() {
    let (mut d, mut p) = two_spheres(20_000);
    p.velocity[1] = v(i64::MAX, 0, 0);
    p.force[0] = v(3, 2, 1);
    p.is_collision[1] = true;
    let mut f = ForceData::new();
    f.forcedata.push(Mat3 { x: v(1, 2, 3), y: v(4, 5, 6), z: v(7, 8, 9) });
    let mut state = CycleState::new();
    state.ledisplace = 7;
    let before = (p.position.clone(), p.velocity.clone(), p.force.clone(), p.is_collision.clone());
    assert_eq!(cycle_step(&mut d, &mut p, &mut f, &mut state, 1_000_000), Err(NumericError::OutOfRange));
    assert_eq!((p.position.clone(), p.velocity.clone(), p.force.clone(), p.is_collision.clone()), before);
    assert_eq!(f.forcedata, vec![Mat3 { x: v(1, 2, 3), y: v(4, 5, 6), z: v(7, 8, 9) }]);
    assert_eq!(state.ledisplace, 7);
    assert_eq!(state.average_reset_count, 0);
}

#[test]
fn shear_offset_stays_within_the_domain() {
    let d = DomainData::new(v(10 * ONE, 20 * ONE, 10 * ONE), Index3 { x: 1, y: 1, z: 1 }, -2 * ONE).unwrap();
    let f = d.frame();
    // it shrinks by 4 from 1 and comes back in at 7
    assert_eq!(next_offset(&f, 100_000, ONE), Some(7 * ONE));
    assert_eq!(next_offset(&f, 100_000, 4 * ONE), Some(0));
    assert_eq!(next_offset(&f, 0, 25 * ONE), Some(5 * ONE));
    assert_eq!(next_offset(&f, i64::MAX, ONE), None);
}

#[test]
fn clearing_takes_forces_and_marks_away() {
    let (_, mut p) = two_spheres(0);
    p.force[0] = v(1, 2, 3);
    p.is_collision[1] = true;
    clear_forces(&mut p);
    assert_eq!(p.force, vec![v(0, 0, 0), v(0, 0, 0)]);
    assert_eq!(p.is_collision, vec![false, false]);
}

#[test]
fn due_every_so_many_steps() {
    assert!(due(0, 2500));
    assert!(!due(1, 2500));
    assert!(due(5000, 2500));
    assert!(due(7, 1));
}
