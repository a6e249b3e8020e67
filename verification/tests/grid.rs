use dem_engine::domain::DomainData;
use dem_engine::forces::{_simp_collisions, collisions};
use dem_engine::grid::{candidate_pairs, update, Pair};
use dem_engine::sphere::{ForceData, Material, ParticleData};
use dem_engine::vector::{Index3, Vec3};

const ONE: i64 = 1_000_000;

fn v(x: i64, y: i64, z: i64) -> Vec3 {
    Vec3 { x, y, z }
}

fn material(radius: i64) -> Material {
    Material { radius, mass: 2 * ONE, youngs_mod: 1000 * ONE, poisson_ratio: 300_000, density: ONE, id: 1 }
}

fn store(places: &[(i64, i64, i64)], radius: i64) -> ParticleData {
    let mut p = ParticleData::new(950_000, 0);
    let m = material(radius);
    p.add_material(m);
    for &(x, y, z) in places {
        p.add_sphere(&m, v(x, y, z), v(0, 0, 0));
    }
    p
}

#[test]
fn update_sorts_entities_into_cells() {
    // two cells along x, each 10 wide; radius 1
    let mut d = DomainData::new(v(20 * ONE, 10 * ONE, 10 * ONE), Index3 { x: 2, y: 1, z: 1 }, 0).unwrap();
    let mut p = store(
        &[(5 * ONE, 5 * ONE, 5 * ONE), (15 * ONE, 5 * ONE, 5 * ONE), (9_500_000, 5 * ONE, 5 * ONE)],
        ONE,
    );
    update(&mut d, &mut p);
    // both cells are on the boundary of the grid; entity 0 and 1 are well inside:
    // their extent along x does not come within 2 of the cell line
    assert_eq!(d.g_data[0][0][0].reals, vec![0, 2]);
    assert_eq!(d.g_data[1][0][0].reals, vec![1]);
    assert_eq!(d.g_data[1][0][0].ghosts, vec![2]);
    assert_eq!(d.g_data[0][0][0].ghosts, Vec::<usize>::new());
}

#[test]
fn update_is_a_full_rebuild() {
    let mut d = DomainData::new(v(20 * ONE, 10 * ONE, 10 * ONE), Index3 { x: 2, y: 1, z: 1 }, 0).unwrap();
    let mut p = store(&[(5 * ONE, 5 * ONE, 5 * ONE)], ONE);
    update(&mut d, &mut p);
    assert_eq!(d.g_data[0][0][0].reals, vec![0]);
    p.position[0] = v(15 * ONE, 5 * ONE, 5 * ONE);
    update(&mut d, &mut p);
    assert_eq!(d.g_data[0][0][0].reals, Vec::<usize>::new());
    assert_eq!(d.g_data[1][0][0].reals, vec![0]);
}

#[test]
fn entities_near_a_face_are_ghosts_of_boundary_cells() {
    let mut d = DomainData::new(v(30 * ONE, 30 * ONE, 30 * ONE), Index3 { x: 3, y: 3, z: 3 }, 0).unwrap();
    // entity 0 hugs the lower x face; entity 1 sits in the middle cell
    let mut p = store(&[(ONE, 15 * ONE, 15 * ONE), (15 * ONE, 15 * ONE, 15 * ONE)], ONE);
    update(&mut d, &mut p);
    assert_eq!(d.g_data[0][1][1].reals, vec![0]);
    assert_eq!(d.g_data[1][1][1].reals, vec![1]);
    // the far corner cell is on the boundary: it keeps entity 0 as a ghost
    assert_eq!(d.g_data[2][2][2].ghosts, vec![0]);
    // the middle cell is not on the boundary and is too far from entity 0
    assert_eq!(d.g_data[1][1][1].ghosts, Vec::<usize>::new());
}

#[test]
fn pairs_are_real_with_real_once_and_real_with_ghost() {
    let mut d = DomainData::new(v(20 * ONE, 10 * ONE, 10 * ONE), Index3 { x: 2, y: 1, z: 1 }, 0).unwrap();
    let mut p = store(
        &[(5 * ONE, 5 * ONE, 5 * ONE), (15 * ONE, 5 * ONE, 5 * ONE), (9_500_000, 5 * ONE, 5 * ONE)],
        ONE,
    );
    update(&mut d, &mut p);
    let pairs = candidate_pairs(&d);
    assert_eq!(
        pairs,
        vec![
            Pair { first: 0, second: 2, with_ghost: false },
            Pair { first: 1, second: 2, with_ghost: true },
        ]
    );
}

fn marks_of(places: &[(i64, i64, i64)], cells: usize, brute: bool) -> (Vec<bool>, usize) {
    let mut d =
        DomainData::new(v(40 * ONE, 40 * ONE, 40 * ONE), Index3 { x: cells, y: cells, z: cells }, 0).unwrap();
    let mut p = store(places, ONE);
    let mut f = ForceData::new();
    if brute {
        _simp_collisions(&d, &mut p, &mut f, 0, 0).unwrap();
        (p.is_collision.clone(), f.particle_indexes.len())
    } else {
        update(&mut d, &mut p);
        collisions(&d, &mut p, &mut f, 0, 0).unwrap();
        (p.is_collision.clone(), f.forcedata.len())
    }
}

#[test]
fn grid_finds_the_contacts_that_brute_force_finds() {
    // a chain across cell lines, an isolated entity, and a cluster inside one cell
    let places = [
        (9_200_000, 10 * ONE, 10 * ONE),
        (10_900_000, 10 * ONE, 10 * ONE),
        (12_500_000, 10 * ONE, 10 * ONE),
        (30 * ONE, 30 * ONE, 30 * ONE),
        (25 * ONE, 25 * ONE, 25 * ONE),
        (25 * ONE, 26_500_000, 25 * ONE),
        (25 * ONE, 25 * ONE, 26_900_000),
        (19_500_000, 19_500_000, 19_500_000),
        (20_500_000, 20_500_000, 20_500_000),
    ];
    let (brute_marks, brute_contacts) = marks_of(&places, 1, true);
    assert_eq!(brute_marks, vec![true, true, true, false, true, true, true, true, true]);
    assert_eq!(brute_contacts, 5);
    for cells in [1usize, 2, 4, 8] {
        let (marks, tensors) = marks_of(&places, cells, false);
        assert_eq!(marks, brute_marks, "with {} cells per axis", cells);
        // a contact across a cell line is met once from each side
        assert!(tensors >= brute_contacts && tensors <= 2 * brute_contacts);
    }
    let (_, tensors_one_cell) = marks_of(&places, 1, false);
    assert_eq!(tensors_one_cell, brute_contacts);
}

#[test]
fn grid_and_brute_force_agree_on_the_forces_within_one_cell() {
    let places = [
        (25 * ONE, 25 * ONE, 25 * ONE),
        (25 * ONE, 26_500_000, 25 * ONE),
        (25 * ONE, 25 * ONE, 26_900_000),
    ];
    let mut d = DomainData::new(v(40 * ONE, 40 * ONE, 40 * ONE), Index3 { x: 1, y: 1, z: 1 }, 0).unwrap();
    let mut p = store(&places, ONE);
    let mut q = store(&places, ONE);
    let mut f = ForceData::new();
    let mut g = ForceData::new();
    update(&mut d, &mut p);
    collisions(&d, &mut p, &mut f, 0, 0).unwrap();
    _simp_collisions(&d, &mut q, &mut g, 0, 0).unwrap();
    assert_eq!(p.force, q.force);
    assert_eq!(g.particle_indexes, vec![(0, 1), (0, 2)]);
    assert_eq!(g.del, vec![v(0, 1_500_000, 0), v(0, 0, 1_900_000)]);
    assert_eq!(g.force.len(), 2);
    assert_eq!(p.force[0].plus(&p.force[1]).unwrap().plus(&p.force[2]).unwrap(), v(0, 0, 0));
}
