use dem_engine::simulation::materials::{calculate_delta_time, effective, generate_material_map, pair_key, rayleigh_time};
use dem_engine::sphere::{EffectiveMaterialPreCalc, Material, ParticleData};
use dem_engine::vector::Vec3;

const ONE: i64 = 1_000_000;

fn steel() -> Material {
    Material { radius: ONE, mass: ONE, youngs_mod: 1000 * ONE, poisson_ratio: 300_000, density: 2 * ONE, id: 1 }
}

fn glass() -> Material {
    Material { radius: 3 * ONE, mass: ONE, youngs_mod: 500 * ONE, poisson_ratio: 200_000, density: ONE, id: -7 }
}

#[test]
fn material_mass_follows_from_radius_and_density() {
    let m = Material::new(4, 500_000, 2 * ONE, 1000 * ONE, 300_000).unwrap();
    // the volume of a sphere of radius one half is 0.523598
    assert_eq!(m.mass, 1_047_196);
    assert_eq!((m.id, m.radius, m.density), (4, 500_000, 2 * ONE));
    assert!(Material::new(4, 4_000_000 * ONE, ONE, ONE, 0).is_none());
}

#[test]
fn keys_of_pairs_are_distinct() {
    assert_eq!(pair_key(i32::MIN, i32::MIN), 0);
    assert_eq!(pair_key(i32::MIN, i32::MAX), 0xffff_ffff);
    assert_eq!(pair_key(i32::MAX, i32::MAX), u64::MAX);
    assert_eq!(pair_key(0, 0), 0x8000_0000_8000_0000);
    assert_ne!(pair_key(1, -7), pair_key(-7, 1));
}

#[test]
fn every_pair_of_materials_is_filed() {
    let mut p = ParticleData::new(ONE, 0);
    p.add_material(steel());
    p.add_material(glass());
    assert_eq!(p.max_radius, 3 * ONE);
    assert_eq!(generate_material_map(&mut p), Ok(()));
    assert_eq!(p.sphere_material_map.len(), 4);
    assert_eq!(
        p.sphere_material_map.get(&pair_key(1, 1)),
        Some(&EffectiveMaterialPreCalc { eff_radius: 500_000, eff_youngs_mod: 549_450_549 })
    );
    let mixed = effective(&steel(), &glass()).unwrap();
    assert_eq!(mixed.eff_radius, 750_000);
    assert_eq!(p.sphere_material_map.get(&pair_key(1, -7)), Some(&mixed));
    assert_eq!(p.sphere_material_map.get(&pair_key(-7, 1)), Some(&mixed));
    assert_eq!(p.sphere_material_map.get(&pair_key(-7, 1)), effective(&glass(), &steel()).as_ref());
}

#[test]
fn a_later_material_with_the_same_identifier_replaces_the_earlier() {
    let mut p = ParticleData::new(ONE, 0);
    p.add_material(steel());
    let mut soft = steel();
    soft.youngs_mod = 10 * ONE;
    p.add_material(soft);
    assert_eq!(generate_material_map(&mut p), Ok(()));
    assert_eq!(p.sphere_material_map.len(), 1);
    assert_eq!(p.sphere_material_map.get(&pair_key(1, 1)), effective(&soft, &soft).as_ref());
}

#[test]
fn a_pair_without_constants_fails_the_map_and_changes_nothing() {
    let mut p = ParticleData::new(ONE, 0);
    p.add_material(steel());
    let mut broken = glass();
    broken.youngs_mod = 0;
    p.add_material(broken);
    assert!(generate_material_map(&mut p).is_err());
    assert!(p.sphere_material_map.is_empty());
}

#[test]
fn time_step_is_half_the_least_wave_time() {
    let mut p = ParticleData::new(ONE, 0);
    assert_eq!(calculate_delta_time(&p), Some(500));
    let m = Material { radius: 100, mass: ONE, youngs_mod: 1000 * ONE, poisson_ratio: 300_000, density: 2 * ONE, id: 1 };
    p.add_material(m);
    p.add_sphere(&m, Vec3 { x: 0, y: 0, z: 0 }, Vec3 { x: 0, y: 0, z: 0 });
    assert_eq!(rayleigh_time(100, 2 * ONE, 1000 * ONE, 300_000), Some(24));
    assert_eq!(calculate_delta_time(&p), Some(12));
    p.add_sphere(&steel(), Vec3 { x: 0, y: 0, z: 0 }, Vec3 { x: 0, y: 0, z: 0 });
    assert_eq!(calculate_delta_time(&p), Some(12));
    let mut q = ParticleData::new(ONE, 0);
    q.add_sphere(&steel(), Vec3 { x: 0, y: 0, z: 0 }, Vec3 { x: 0, y: 0, z: 0 });
    // one sphere of radius one: pi / 0.925535 * sqrt(2 / 384.615384) is far above a thousandth
    assert_eq!(rayleigh_time(ONE, 2 * ONE, 1000 * ONE, 300_000), Some(244_770));
    assert_eq!(calculate_delta_time(&q), Some(500));
}
