use dem_engine::domain::DomainData;
use dem_engine::grid::update;
use dem_engine::relaxation::{is_relaxed, relax};
use dem_engine::simulation::settle::{finish_relaxation, relax_pass, settle, solid_volume, RelaxSettings};
use dem_engine::sphere::{sphere_volume, Material, ParticleData};
use dem_engine::vector::{Index3, Vec3};

const ONE: i64 = 1_000_000;

fn v(x: i64, y: i64, z: i64) -> Vec3 {
    Vec3 { x, y, z }
}

fn store(places: &[(i64, i64, i64)], radius: i64) -> ParticleData {
    let mut p = ParticleData::new(950_000, 0);
    let m = Material::new(1, radius, ONE, 1000 * ONE, 300_000).unwrap();
    p.add_material(m);
    for &(x, y, z) in places {
        p.add_sphere(&m, v(x, y, z), v(0, 0, 0));
    }
    p
}

/// A small generator, so that the fixture is the same in every run.
fn scatter(n: usize, extent: i64) -> Vec<(i64, i64, i64)> {
    let mut state: u64 = 0x9e37_79b9_7f4a_7c15;
    let mut next = move || {
        state ^= state << 13;
        state ^= state >> 7;
        state ^= state << 17;
        (state % (extent as u64 - 1)) as i64 + 1
    };
    (0..n).map(|_| (next(), next(), next())).collect()
}

fn overlaps(p: &ParticleData, domain: i64) -> usize {
    let mut count = 0;
    for i in 0..p.radius.len() {
        for j in i + 1..p.radius.len() {
            let mut sum: i128 = 0;
            for (a, b) in [
                (p.position[i].x, p.position[j].x),
                (p.position[i].y, p.position[j].y),
                (p.position[i].z, p.position[j].z),
            ] {
                let mut d = (a - b).abs();
                if domain - d < d {
                    d = domain - d;
                }
                sum += (d as i128) * (d as i128);
            }
            let reach = (p.radius[i] + p.radius[j]) as i128;
            if sum < reach * reach {
                count += 1;
            }
        }
    }
    count
}

#[test]
fn one_pass_pushes_an_overlapping_pair_apart() {
    let mut d = DomainData::new(v(20 * ONE, 20 * ONE, 20 * ONE), Index3 { x: 1, y: 1, z: 1 }, 0).unwrap();
    let mut p = store(&[(9_500_000, 10 * ONE, 10 * ONE), (10_500_000, 10 * ONE, 10 * ONE)], ONE);
    update(&mut d, &mut p);
    assert_eq!(is_relaxed(&d, &p, ONE), Ok(false));
    assert_eq!(relax(&mut d, &mut p, 20_000), Ok(()));
    assert_eq!(p.velocity, vec![v(-20_000, 0, 0), v(20_000, 0, 0)]);
    assert_eq!(p.is_collision, vec![true, true]);
    assert_eq!(p.position, vec![v(9_500_000, 10 * ONE, 10 * ONE), v(10_500_000, 10 * ONE, 10 * ONE)]);
}

#[test]
fn a_pair_across_a_cell_line_is_pushed_with_half_the_rate_from_each_side() {
    let mut d = DomainData::new(v(20 * ONE, 20 * ONE, 20 * ONE), Index3 { x: 2, y: 1, z: 1 }, 0).unwrap();
    let mut p = store(&[(9_500_000, 10 * ONE, 10 * ONE), (10_500_000, 10 * ONE, 10 * ONE)], ONE);
    update(&mut d, &mut p);
    assert_eq!(relax(&mut d, &mut p, 20_000), Ok(()));
    assert_eq!(p.velocity, vec![v(-20_000, 0, 0), v(20_000, 0, 0)]);
}

#[test]
fn threshold_is_a_part_of_the_sum_of_radii() {
    let mut d = DomainData::new(v(20 * ONE, 20 * ONE, 20 * ONE), Index3 { x: 1, y: 1, z: 1 }, 0).unwrap();
    let mut p = store(&[(9 * ONE, 10 * ONE, 10 * ONE), (10_800_000, 10 * ONE, 10 * ONE)], ONE);
    update(&mut d, &mut p);
    // 1.8 apart, radii sum to 2
    assert_eq!(is_relaxed(&d, &p, ONE), Ok(false));
    assert_eq!(is_relaxed(&d, &p, 900_000), Ok(true));
    assert_eq!(is_relaxed(&d, &p, 900_001), Ok(false));
}

#[test]
fn a_pass_drifts_slows_wraps_and_pushes() {
    let mut d = DomainData::new(v(20 * ONE, 20 * ONE, 20 * ONE), Index3 { x: 1, y: 1, z: 1 }, 0).unwrap();
    let mut p = store(&[(9_500_000, 10 * ONE, 10 * ONE), (10_500_000, 10 * ONE, 10 * ONE)], ONE);
    p.velocity[0] = v(-200_000, 0, 0);
    p.is_collision[1] = true;
    let s = RelaxSettings::standard();
    assert_eq!(relax_pass(&mut d, &mut p, &s), Ok(false));
    assert_eq!(p.position[0], v(9_400_000, 10 * ONE, 10 * ONE));
    assert_eq!(p.velocity, vec![v(-120_000, 0, 0), v(20_000, 0, 0)]);
    assert_eq!(p.is_collision, vec![true, true]);
}

#[test]
fn scattered_spheres_settle() {
    let extent = 12 * ONE;
    let places = scatter(40, extent);
    let mut d = DomainData::new(v(extent, extent, extent), Index3 { x: 3, y: 3, z: 3 }, 2 * ONE).unwrap();
    let mut p = store(&places, ONE);
    assert!(overlaps(&p, extent) > 0, "the fixture starts with overlaps");
    let s = RelaxSettings::standard();
    assert_eq!(settle(&mut d, &mut p, &s, 20_000), Ok(true));
    assert_eq!(overlaps(&p, extent), 0);
    for q in p.position.iter() {
        assert!(0 < q.x && q.x <= extent && 0 < q.y && q.y <= extent && 0 < q.z && q.z <= extent);
    }
    let fraction = finish_relaxation(&d, &mut p).unwrap();
    // 40 spheres of volume 4.18879 in a domain of volume 1728
    assert_eq!(sphere_volume(ONE), Some(4_188_790));
    assert_eq!(solid_volume(&p.radius), Some(40 * 4_188_790));
    assert_eq!(fraction, 96_962);
    assert_eq!(p.volume_fraction, 96_962);
    for (q, w) in p.position.iter().zip(p.velocity.iter()) {
        assert_eq!(w.x, ((q.y - 6 * ONE) as i128 * 2_000_000 / 1_000_000) as i64);
        assert_eq!((w.y, w.z), (0, 0));
    }
}

#[test]
fn settle_stops_when_the_passes_are_used_up() {
    let mut d = DomainData::new(v(20 * ONE, 20 * ONE, 20 * ONE), Index3 { x: 1, y: 1, z: 1 }, 0).unwrap();
    let mut p = store(&[(9_500_000, 10 * ONE, 10 * ONE), (10_500_000, 10 * ONE, 10 * ONE)], ONE);
    let s = RelaxSettings::standard();
    assert_eq!(settle(&mut d, &mut p, &s, 0), Ok(false));
    assert_eq!(p.position[0], v(9_500_000, 10 * ONE, 10 * ONE));
    assert_eq!(settle(&mut d, &mut p, &s, 1), Ok(false));
    assert_eq!(p.velocity, vec![v(-20_000, 0, 0), v(20_000, 0, 0)]);
}

#[test]
fn an_already_settled_assembly_takes_one_pass() {
    let mut d = DomainData::new(v(20 * ONE, 20 * ONE, 20 * ONE), Index3 { x: 2, y: 2, z: 2 }, 0).unwrap();
    let mut p = store(&[(5 * ONE, 5 * ONE, 5 * ONE), (15 * ONE, 15 * ONE, 15 * ONE)], ONE);
    let s = RelaxSettings::standard();
    assert_eq!(settle(&mut d, &mut p, &s, 5), Ok(true));
    assert_eq!(p.velocity, vec![v(0, 0, 0), v(0, 0, 0)]);
}

#[test]
fn volume_fraction_needs_a_volume() {
    let d = DomainData::new(v(1, 1, 1), Index3 { x: 1, y: 1, z: 1 }, 0).unwrap();
    let mut p = store(&[(1, 1, 1)], ONE);
    assert!(finish_relaxation(&d, &mut p).is_err());
    assert_eq!(p.volume_fraction, 0);
}
