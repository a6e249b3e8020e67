use dem_engine::domain::{Box, DomainData};
use dem_engine::vector::{Index3, Vec3};

fn v(x: i64, y: i64, z: i64) -> Vec3 {
    Vec3 { x, y, z }
}

fn cell(lo: Vec3, hi: Vec3) -> Box {
    Box { position: Index3 { x: 0, y: 0, z: 0 }, reals: Vec::new(), ghosts: Vec::new(), lo, hi }
}

#[test]
fn cell_is_half_open() {
    let c = cell(v(0, 0, 0), v(10, 10, 10));
    assert!(c.is_position_in_box(v(0, 0, 0)));
    assert!(c.is_position_in_box(v(9, 9, 9)));
    assert!(!c.is_position_in_box(v(10, 5, 5)));
    assert!(!c.is_position_in_box(v(5, 10, 5)));
    assert!(!c.is_position_in_box(v(5, 5, 10)));
    assert!(!c.is_position_in_box(v(-1, 5, 5)));
}

#[test]
fn enlarged_cell_is_closed() {
    let c = cell(v(0, 0, 0), v(10, 10, 10));
    assert!(c.is_position_in_max_radius_enlarged_box(v(-2, -2, -2), 2));
    assert!(c.is_position_in_max_radius_enlarged_box(v(12, 12, 12), 2));
    assert!(!c.is_position_in_max_radius_enlarged_box(v(13, 5, 5), 2));
    assert!(!c.is_position_in_max_radius_enlarged_box(v(5, -3, 5), 2));
}

#[test]
fn corner_tests_take_one_end_per_axis() {
    let c = cell(v(0, 0, 0), v(10, 10, 10));
    // centre outside on x, but the lower end of its extent is inside
    assert!(c._is_sphere_aabb_in_box(v(11, 5, 5), 2));
    assert!(c._is_sphere_aabb_in_box(v(11, 3, 3), 2));
    assert!(!c._is_sphere_aabb_in_box(v(12, 3, 3), 2));
    assert!(!c._is_sphere_aabb_in_box(v(13, 3, 3), 2));
    // a sphere wider than the cell has no corner in it
    assert!(!c._is_sphere_aabb_in_box(v(5, 5, 5), 20));
    assert!(c.is_sphere_aabb_in_radius_enlarged_box(v(14, 5, 5), 2, 2));
    assert!(!c.is_sphere_aabb_in_radius_enlarged_box(v(15, 5, 5), 2, 2));
    assert!(c.is_sphere_aabb_in_radius_enlarged_box(v(-4, -4, -4), 2, 2));
    assert!(!c.is_sphere_aabb_in_radius_enlarged_box(v(-5, -4, -4), 2, 2));
}

#[test]
fn spheres_near_a_face_are_periodic() {
    let d = DomainData::new(v(100, 100, 100), Index3 { x: 2, y: 2, z: 2 }, 0).unwrap();
    let c = cell(v(0, 0, 0), v(50, 50, 50));
    assert!(c.is_periodic_sphere(v(4, 50, 50), 2, 2, &d));
    assert!(!c.is_periodic_sphere(v(5, 50, 50), 2, 2, &d));
    assert!(c.is_periodic_sphere(v(50, 96, 50), 2, 2, &d));
    assert!(!c.is_periodic_sphere(v(50, 95, 50), 2, 2, &d));
    assert!(c.is_periodic_sphere(v(50, 50, 4), 2, 2, &d));
    assert!(!c.is_periodic_sphere(v(50, 50, 50), 2, 2, &d));
}

#[test]
fn domain_needs_positive_extents_and_counts() {
    assert!(DomainData::new(v(0, 1, 1), Index3 { x: 1, y: 1, z: 1 }, 0).is_none());
    assert!(DomainData::new(v(1, -1, 1), Index3 { x: 1, y: 1, z: 1 }, 0).is_none());
    assert!(DomainData::new(v(1, 1, 1), Index3 { x: 0, y: 1, z: 1 }, 0).is_none());
    assert!(DomainData::new(v(i64::MAX, i64::MAX, 1), Index3 { x: 1, y: 1, z: 1 }, 0).is_none());
    assert!(DomainData::new(v(1, 1, 1), Index3 { x: 1, y: 1, z: 1 }, 0).is_some());
}

#[test]
fn cells_tile_the_domain() {
    let d = DomainData::new(v(10, 7, 3_000_000), Index3 { x: 3, y: 2, z: 1 }, 5).unwrap();
    assert_eq!(d.domain_volume, 0);
    assert_eq!(d.lees_edwards_boundary, 5);
    assert_eq!(d.g_data.len(), 3);
    assert_eq!(d.g_data[0].len(), 2);
    assert_eq!(d.g_data[0][0].len(), 1);
    let edges_x: Vec<(i64, i64)> = (0..3).map(|i| (d.g_data[i][0][0].lo.x, d.g_data[i][0][0].hi.x)).collect();
    assert_eq!(edges_x, vec![(0, 3), (3, 6), (6, 10)]);
    let edges_y: Vec<(i64, i64)> = (0..2).map(|j| (d.g_data[0][j][0].lo.y, d.g_data[0][j][0].hi.y)).collect();
    assert_eq!(edges_y, vec![(0, 3), (3, 7)]);
    assert_eq!((d.g_data[2][1][0].lo.z, d.g_data[2][1][0].hi.z), (0, 3_000_000));
    assert_eq!(d.g_data[2][1][0].position, Index3 { x: 2, y: 1, z: 0 });
    assert!(d.g_data[2][1][0].reals.is_empty() && d.g_data[2][1][0].ghosts.is_empty());
}

#[test]
fn volume_is_a_fixed_point_product() {
    let d = DomainData::new(v(2_000_000, 3_000_000, 500_000), Index3 { x: 1, y: 1, z: 1 }, 0).unwrap();
    assert_eq!(d.domain_volume, 3_000_000);
}
