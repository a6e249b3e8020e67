//! The periodic simulation box and the grid of cells that partitions it.
use vstd::prelude::*;
use crate::fixed::{fx_mul, fx_mul_spec};
use crate::vector::{Index3, Vec3};

verus! {

/// `lo <= v < hi` on one axis.
pub open spec fn axis_inside(lo: int, hi: int, v: int) -> bool {
    lo <= v < hi
}

/// `lo - margin <= v <= hi + margin` on one axis.
pub open spec fn axis_near(lo: int, hi: int, margin: int, v: int) -> bool {
    lo - margin <= v <= hi + margin
}

/// One end of the extent `[v - r, v + r]`: the upper one where `upper` is set.
pub open spec fn end_of(v: int, r: int, upper: bool) -> int {
    if upper {
        v + r
    } else {
        v - r
    }
}

/// One cell of the grid: the half-open region `[lo, hi)` and the entities
/// currently assigned to it.
pub struct Box {
    /// The cell's place in the grid.
    pub position: Index3,
    /// Entities whose centre lies in the cell.
    pub reals: Vec<usize>,
    /// Entities outside the cell that may touch one inside it.
    pub ghosts: Vec<usize>,
    pub lo: Vec3,
    pub hi: Vec3,
}

fn within(lo: i64, hi: i64, v: i128) -> (r: bool)
    ensures
        r == axis_inside(lo as int, hi as int, v as int),
{
    lo as i128 <= v && v < hi as i128
}

fn near(lo: i64, hi: i64, margin: i64, v: i128) -> (r: bool)
    requires
        -0x1_0000_0000_0000_0000 <= v <= 0x1_0000_0000_0000_0000,
    ensures
        r == axis_near(lo as int, hi as int, margin as int, v as int),
{
    lo as i128 - margin as i128 <= v && v <= hi as i128 + margin as i128
}

impl Box {
    /// The point `(x, y, z)` lies in `[lo, hi)` on all three axes.
    pub open spec fn holds_point(self, x: int, y: int, z: int) -> bool {
        &&& axis_inside(self.lo.x as int, self.hi.x as int, x)
        &&& axis_inside(self.lo.y as int, self.hi.y as int, y)
        &&& axis_inside(self.lo.z as int, self.hi.z as int, z)
    }

    /// The point `(x, y, z)` lies in `[lo - margin, hi + margin]` on all three axes.
    pub open spec fn holds_point_enlarged(self, x: int, y: int, z: int, margin: int) -> bool {
        &&& axis_near(self.lo.x as int, self.hi.x as int, margin, x)
        &&& axis_near(self.lo.y as int, self.hi.y as int, margin, y)
        &&& axis_near(self.lo.z as int, self.hi.z as int, margin, z)
    }

    /// The centre `p` lies in the cell.
    pub open spec fn contains(self, p: Vec3) -> bool {
        self.holds_point(p.x as int, p.y as int, p.z as int)
    }

    /// The centre `p` lies in the cell enlarged by `margin` on every side.
    pub open spec fn contains_enlarged(self, p: Vec3, margin: int) -> bool {
        self.holds_point_enlarged(p.x as int, p.y as int, p.z as int, margin)
    }

    /// One of the eight corners of the cube of half-width `r` around `p` lies in
    /// the cell.
    pub open spec fn corner_inside(self, p: Vec3, r: int) -> bool {
        exists|ux: bool, uy: bool, uz: bool| #[trigger]
            self.holds_point(end_of(p.x as int, r, ux), end_of(p.y as int, r, uy), end_of(p.z as int, r, uz))
    }

    /// One of the eight corners of the cube of half-width `r` around `p` lies in
    /// the cell enlarged by `margin`.
    pub open spec fn corner_near(self, p: Vec3, r: int, margin: int) -> bool {
        exists|ux: bool, uy: bool, uz: bool| #[trigger]
            self.holds_point_enlarged(
                end_of(p.x as int, r, ux),
                end_of(p.y as int, r, uy),
                end_of(p.z as int, r, uz),
                margin,
            )
    }

    pub fn is_position_in_box(&self, position: Vec3) -> (r: bool)
        ensures
            r == self.contains(position),
    {
        within(self.lo.x, self.hi.x, position.x as i128) && within(
            self.lo.y,
            self.hi.y,
            position.y as i128,
        ) && within(self.lo.z, self.hi.z, position.z as i128)
    }

    pub fn is_position_in_max_radius_enlarged_box(&self, position: Vec3, max_radius: i64) -> (r:
        bool)
        ensures
            r == self.contains_enlarged(position, max_radius as int),
    {
        near(self.lo.x, self.hi.x, max_radius, position.x as i128) && near(
            self.lo.y,
            self.hi.y,
            max_radius,
            position.y as i128,
        ) && near(self.lo.z, self.hi.z, max_radius, position.z as i128)
    }

    pub fn _is_sphere_aabb_in_box(&self, position: Vec3, radius: i64) -> (r: bool)
        ensures
            r == self.corner_inside(position, radius as int),
    {
        let x: i128 = position.x as i128;
        let y: i128 = position.y as i128;
        let z: i128 = position.z as i128;
        let d: i128 = radius as i128;
        let ox: bool = within(self.lo.x, self.hi.x, x + d) || within(self.lo.x, self.hi.x, x - d);
        let oy: bool = within(self.lo.y, self.hi.y, y + d) || within(self.lo.y, self.hi.y, y - d);
        let oz: bool = within(self.lo.z, self.hi.z, z + d) || within(self.lo.z, self.hi.z, z - d);
        proof {
            let rr = radius as int;
            if ox && oy && oz {
                let ux = axis_inside(self.lo.x as int, self.hi.x as int, x + d);
                let uy = axis_inside(self.lo.y as int, self.hi.y as int, y + d);
                let uz = axis_inside(self.lo.z as int, self.hi.z as int, z + d);
                assert(self.holds_point(
                    end_of(position.x as int, rr, ux),
                    end_of(position.y as int, rr, uy),
                    end_of(position.z as int, rr, uz),
                ));
            }
        }
        ox && oy && oz
    }

    pub fn is_sphere_aabb_in_radius_enlarged_box(
        &self,
        position: Vec3,
        radius: i64,
        max_radius: i64,
    ) -> (r: bool)
        ensures
            r == self.corner_near(position, radius as int, max_radius as int),
    {
        let x: i128 = position.x as i128;
        let y: i128 = position.y as i128;
        let z: i128 = position.z as i128;
        let d: i128 = radius as i128;
        let ox: bool = near(self.lo.x, self.hi.x, max_radius, x + d) || near(
            self.lo.x,
            self.hi.x,
            max_radius,
            x - d,
        );
        let oy: bool = near(self.lo.y, self.hi.y, max_radius, y + d) || near(
            self.lo.y,
            self.hi.y,
            max_radius,
            y - d,
        );
        let oz: bool = near(self.lo.z, self.hi.z, max_radius, z + d) || near(
            self.lo.z,
            self.hi.z,
            max_radius,
            z - d,
        );
        proof {
            let rr = radius as int;
            let m = max_radius as int;
            if ox && oy && oz {
                let ux = axis_near(self.lo.x as int, self.hi.x as int, m, x + d);
                let uy = axis_near(self.lo.y as int, self.hi.y as int, m, y + d);
                let uz = axis_near(self.lo.z as int, self.hi.z as int, m, z + d);
                assert(self.holds_point_enlarged(
                    end_of(position.x as int, rr, ux),
                    end_of(position.y as int, rr, uy),
                    end_of(position.z as int, rr, uz),
                    m,
                ));
            }
        }
        ox && oy && oz
    }

    pub fn is_periodic_sphere(
        &self,
        position: Vec3,
        radius: i64,
        max_radius: i64,
        d_data: &DomainData,
    ) -> (r: bool)
        ensures
            r == touches_face(d_data.domain, position, radius as int, max_radius as int),
    {
        let m: i128 = max_radius as i128;
        let d: i128 = radius as i128;
        position.x as i128 - d <= m || position.x as i128 + d >= d_data.domain.x as i128 - m
            || position.y as i128 - d <= m || position.y as i128 + d >= d_data.domain.y as i128 - m
            || position.z as i128 - d <= m || position.z as i128 + d >= d_data.domain.z as i128 - m
    }
}

/// On one axis, the extent `[v - r, v + r]` comes within `margin` of one of the
/// faces `0` and `extent`.
pub open spec fn axis_touches_face(extent: int, v: int, r: int, margin: int) -> bool {
    v - r <= margin || v + r >= extent - margin
}

/// The sphere of radius `r` around `p` comes within `margin` of a face of the
/// domain.
pub open spec fn touches_face(domain: Vec3, p: Vec3, r: int, margin: int) -> bool {
    ||| axis_touches_face(domain.x as int, p.x as int, r, margin)
    ||| axis_touches_face(domain.y as int, p.y as int, r, margin)
    ||| axis_touches_face(domain.z as int, p.z as int, r, margin)
}

/// Where cell `i` of `n` begins on an axis of length `extent`: cell `i` is
/// `[cell_edge(i), cell_edge(i + 1))`, so that the cells tile `[0, extent)`.
pub open spec fn cell_edge(extent: int, n: int, i: int) -> int {
    (i * extent) / n
}

/// The volume of a box with the given edge lengths, as a fixed-point number.
pub open spec fn volume_spec(domain: Vec3) -> Option<i64> {
    match fx_mul_spec(domain.x as int, domain.y as int) {
        Some(a) => fx_mul_spec(a as int, domain.z as int),
        None => None,
    }
}

/// The simulation box without its cells: the extents, the cell counts and the
/// shear rate.
#[derive(Clone, Copy, Debug, PartialEq, Eq, Structural)]
pub struct Frame {
    pub domain: Vec3,
    pub domain_volume: i64,
    pub collision_boxes: Index3,
    pub lees_edwards_boundary: i64,
    pub gravity: Vec3,
}

/// The simulation box: its extents, the grid of cells, and the shear rate of
/// the sheared periodic boundary.
pub struct DomainData {
    pub domain: Vec3,
    pub domain_volume: i64,
    pub collision_boxes: Index3,
    pub lees_edwards_boundary: i64,
    pub g_data: Vec<Vec<Vec<Box>>>,
    pub gravity: Vec3,
}

impl DomainData {
    /// The cell at grid place `(i, j, k)`.
    pub open spec fn cell(self, i: int, j: int, k: int) -> Box {
        self.g_data@[i]@[j]@[k]
    }

    /// `(i, j, k)` is a place of the grid.
    pub open spec fn in_grid(self, i: int, j: int, k: int) -> bool {
        &&& 0 <= i < self.collision_boxes.x
        &&& 0 <= j < self.collision_boxes.y
        &&& 0 <= k < self.collision_boxes.z
    }

    /// The cell at `(i, j, k)` lies on the outside of the grid.
    pub open spec fn on_boundary(self, i: int, j: int, k: int) -> bool {
        ||| i == 0 || i == self.collision_boxes.x - 1
        ||| j == 0 || j == self.collision_boxes.y - 1
        ||| k == 0 || k == self.collision_boxes.z - 1
    }

    /// The extents and the cell counts are positive and fit the arithmetic.
    pub open spec fn frame_ok(self) -> bool {
        &&& 0 < self.domain.x
        &&& 0 < self.domain.y
        &&& 0 < self.domain.z
        &&& 0 < self.collision_boxes.x <= i32::MAX
        &&& 0 < self.collision_boxes.y <= i32::MAX
        &&& 0 < self.collision_boxes.z <= i32::MAX
        &&& volume_spec(self.domain) == Some(self.domain_volume)
    }

    /// The cell at `(i, j, k)` has the bounds that the grid gives it.
    pub open spec fn cell_placed(self, i: int, j: int, k: int) -> bool {
        let c = self.cell(i, j, k);
        &&& c.position == (Index3 { x: i as usize, y: j as usize, z: k as usize })
        &&& c.lo.x == cell_edge(self.domain.x as int, self.collision_boxes.x as int, i)
        &&& c.hi.x == cell_edge(self.domain.x as int, self.collision_boxes.x as int, i + 1)
        &&& c.lo.y == cell_edge(self.domain.y as int, self.collision_boxes.y as int, j)
        &&& c.hi.y == cell_edge(self.domain.y as int, self.collision_boxes.y as int, j + 1)
        &&& c.lo.z == cell_edge(self.domain.z as int, self.collision_boxes.z as int, k)
        &&& c.hi.z == cell_edge(self.domain.z as int, self.collision_boxes.z as int, k + 1)
    }

    /// The grid has the declared shape.
    pub open spec fn shaped(self) -> bool {
        &&& self.g_data@.len() == self.collision_boxes.x
        &&& forall|i: int|
            0 <= i < self.collision_boxes.x ==> (#[trigger] self.g_data@[i])@.len()
                == self.collision_boxes.y
        &&& forall|i: int, j: int|
            0 <= i < self.collision_boxes.x && 0 <= j < self.collision_boxes.y ==> (
            #[trigger] self.g_data@[i]@[j])@.len() == self.collision_boxes.z
    }

    /// Well-formedness: positive extents, a grid of the declared shape, and
    /// every cell at its place.
    pub open spec fn wf(self) -> bool {
        &&& self.frame_ok()
        &&& self.shaped()
        &&& forall|i: int, j: int, k: int|
            self.in_grid(i, j, k) ==> #[trigger] self.cell_placed(i, j, k)
    }

    /// The box without its cells.
    pub open spec fn frame_spec(self) -> Frame {
        Frame {
            domain: self.domain,
            domain_volume: self.domain_volume,
            collision_boxes: self.collision_boxes,
            lees_edwards_boundary: self.lees_edwards_boundary,
            gravity: self.gravity,
        }
    }

    /// The same box and grid layout as `other`; the cells' entity lists may differ.
    pub open spec fn same_frame(self, other: DomainData) -> bool {
        self.frame_spec() == other.frame_spec()
    }

    /// The box without its cells.
    pub fn frame(&self) -> (f: Frame)
        ensures
            f == self.frame_spec(),
    {
        Frame {
            domain: self.domain,
            domain_volume: self.domain_volume,
            collision_boxes: self.collision_boxes,
            lees_edwards_boundary: self.lees_edwards_boundary,
            gravity: self.gravity,
        }
    }

    /// Every list of every cell is empty.
    pub open spec fn unfilled(self) -> bool {
        forall|i: int, j: int, k: int|
            self.in_grid(i, j, k) ==> (#[trigger] self.cell(i, j, k)).reals@.len() == 0 && self.cell(
                i,
                j,
                k,
            ).ghosts@.len() == 0
    }

    /// A domain can be made of these extents and cell counts: all are
    /// positive, no count is above `i32::MAX`, and the volume has an `i64`
    /// representation.
    pub open spec fn acceptable(domain: Vec3, collision_boxes: Index3) -> bool {
        &&& 0 < domain.x
        &&& 0 < domain.y
        &&& 0 < domain.z
        &&& 0 < collision_boxes.x <= i32::MAX
        &&& 0 < collision_boxes.y <= i32::MAX
        &&& 0 < collision_boxes.z <= i32::MAX
        &&& volume_spec(domain).is_some()
    }

    /// The domain with the extents `domain`, cut into `collision_boxes` cells
    /// along the three axes, sheared at the rate `lees_edwards_boundary`,
    /// without gravity and with no entity in any cell. `None` where the
    /// extents and counts are not acceptable.
    pub fn new(domain: Vec3, collision_boxes: Index3, lees_edwards_boundary: i64) -> (r: Option<DomainData>)
        ensures
            r.is_some() == DomainData::acceptable(domain, collision_boxes),
            r.is_some() ==> {
                let d = r.unwrap();
                &&& d.wf()
                &&& d.unfilled()
                &&& d.domain == domain
                &&& d.collision_boxes == collision_boxes
                &&& d.lees_edwards_boundary == lees_edwards_boundary
                &&& d.gravity == Vec3::zero_spec()
            },
    {
        if domain.x <= 0 || domain.y <= 0 || domain.z <= 0 {
            return None;
        }
        if collision_boxes.x == 0 || collision_boxes.y == 0 || collision_boxes.z == 0 {
            return None;
        }
        if collision_boxes.x > 0x7fff_ffff || collision_boxes.y > 0x7fff_ffff || collision_boxes.z
            > 0x7fff_ffff {
            return None;
        }
        let domain_volume: i64 = match volume(domain) {
            Some(v) => v,
            None => {
                return None;
            },
        };
        let nx: usize = collision_boxes.x;
        let mut grid: Vec<Vec<Vec<Box>>> = Vec::new();
        let mut i: usize = 0;
        while i < nx
            invariant
                DomainData::acceptable(domain, collision_boxes),
                nx == collision_boxes.x,
                i <= nx,
                grid@.len() == i,
                forall|a: int| 0 <= a < i ==> fresh_plane(domain, collision_boxes, (#[trigger] grid@[a])@, a),
            decreases nx - i,
        {
            let plane: Vec<Vec<Box>> = new_plane(domain, collision_boxes, i);
            grid.push(plane);
            i += 1;
        }
        let d: DomainData = DomainData {
            domain,
            domain_volume,
            collision_boxes,
            lees_edwards_boundary,
            g_data: grid,
            gravity: Vec3::zero(),
        };
        proof {
            assert forall|a: int, b: int, c: int| d.in_grid(a, b, c) implies fresh_cell(
                domain,
                collision_boxes,
                #[trigger] d.cell(a, b, c),
                a,
                b,
                c,
            ) by {
                assert(fresh_plane(domain, collision_boxes, d.g_data@[a]@, a));
                assert(fresh_row(domain, collision_boxes, d.g_data@[a]@[b]@, a, b, collision_boxes.z as int));
            }
            assert(d.shaped()) by {
                assert forall|a: int| 0 <= a < d.collision_boxes.x implies (#[trigger] d.g_data@[a])@.len()
                    == d.collision_boxes.y by {
                    assert(fresh_plane(domain, collision_boxes, d.g_data@[a]@, a));
                }
                assert forall|a: int, b: int|
                    0 <= a < d.collision_boxes.x && 0 <= b < d.collision_boxes.y implies (
                #[trigger] d.g_data@[a]@[b])@.len() == d.collision_boxes.z by {
                    assert(fresh_plane(domain, collision_boxes, d.g_data@[a]@, a));
                    assert(fresh_row(
                        domain,
                        collision_boxes,
                        d.g_data@[a]@[b]@,
                        a,
                        b,
                        collision_boxes.z as int,
                    ));
                }
            }
            assert forall|a: int, b: int, c: int| d.in_grid(a, b, c) implies #[trigger] d.cell_placed(
                a,
                b,
                c,
            ) by {
                assert(fresh_cell(domain, collision_boxes, d.cell(a, b, c), a, b, c));
            }
            assert forall|a: int, b: int, c: int| d.in_grid(a, b, c) implies (#[trigger] d.cell(
                a,
                b,
                c,
            )).reals@.len() == 0 && d.cell(a, b, c).ghosts@.len() == 0 by {
                assert(fresh_cell(domain, collision_boxes, d.cell(a, b, c), a, b, c));
            }
        }
        Some(d)
    }
}

/// The volume of a box with the given edge lengths.
pub fn volume(domain: Vec3) -> (v: Option<i64>)
    ensures
        v == volume_spec(domain),
{
    let base: i64 = fx_mul(domain.x, domain.y)?;
    fx_mul(base, domain.z)
}

/// `c` is the empty cell at place `(i, j, k)` of the grid of a domain with the
/// given extents and counts.
pub open spec fn fresh_cell(domain: Vec3, n: Index3, c: Box, i: int, j: int, k: int) -> bool {
    &&& c.position == (Index3 { x: i as usize, y: j as usize, z: k as usize })
    &&& c.lo.x == cell_edge(domain.x as int, n.x as int, i)
    &&& c.hi.x == cell_edge(domain.x as int, n.x as int, i + 1)
    &&& c.lo.y == cell_edge(domain.y as int, n.y as int, j)
    &&& c.hi.y == cell_edge(domain.y as int, n.y as int, j + 1)
    &&& c.lo.z == cell_edge(domain.z as int, n.z as int, k)
    &&& c.hi.z == cell_edge(domain.z as int, n.z as int, k + 1)
    &&& c.reals@.len() == 0
    &&& c.ghosts@.len() == 0
}

/// `row` holds the first `upto` empty cells of row `(i, j)`.
pub open spec fn fresh_row(domain: Vec3, n: Index3, row: Seq<Box>, i: int, j: int, upto: int) -> bool {
    &&& row.len() == upto
    &&& forall|k: int| 0 <= k < upto ==> fresh_cell(domain, n, #[trigger] row[k], i, j, k)
}

/// `plane` holds the empty rows of plane `i`.
pub open spec fn fresh_plane(domain: Vec3, n: Index3, plane: Seq<Vec<Box>>, i: int) -> bool {
    &&& plane.len() == n.y
    &&& forall|j: int| 0 <= j < n.y ==> fresh_row(domain, n, (#[trigger] plane[j])@, i, j, n.z as int)
}

/// Where cell `i` of `n` begins on an axis of length `extent`.
fn edge(extent: i64, n: usize, i: usize) -> (r: i64)
    requires
        0 < extent,
        0 < n <= i32::MAX,
        i <= n,
    ensures
        r == cell_edge(extent as int, n as int, i as int),
{
    assert(0 <= i * extent <= n * extent) by (nonlinear_arith)
        requires
            0 <= i <= n,
            0 < extent,
    ;
    assert(n * extent <= 0x7fff_ffff * 0x7fff_ffff_ffff_ffff) by (nonlinear_arith)
        requires
            0 < n <= 0x7fff_ffff,
            0 < extent <= 0x7fff_ffff_ffff_ffff,
    ;
    assert((i * extent) / (n as int) <= extent) by (nonlinear_arith)
        requires
            0 <= i * extent <= n * extent,
            0 < n,
            0 < extent,
    ;
    assert((i * extent) / (n as int) >= 0) by (nonlinear_arith)
        requires
            0 <= i * extent,
            0 < n,
    ;
    let wide: i128 = (i as i128 * extent as i128) / (n as i128);
    wide as i64
}

fn new_row(domain: Vec3, n: Index3, i: usize, j: usize) -> (row: Vec<Box>)
    requires
        DomainData::acceptable(domain, n),
        i < n.x,
        j < n.y,
    ensures
        fresh_row(domain, n, row@, i as int, j as int, n.z as int),
{
    let mut row: Vec<Box> = Vec::new();
    let mut k: usize = 0;
    while k < n.z
        invariant
            DomainData::acceptable(domain, n),
            i < n.x,
            j < n.y,
            k <= n.z,
            fresh_row(domain, n, row@, i as int, j as int, k as int),
        decreases n.z - k,
    {
        let cell: Box = Box {
            position: Index3 { x: i, y: j, z: k },
            reals: Vec::new(),
            ghosts: Vec::new(),
            lo: Vec3 { x: edge(domain.x, n.x, i), y: edge(domain.y, n.y, j), z: edge(domain.z, n.z, k) },
            hi: Vec3 {
                x: edge(domain.x, n.x, i + 1),
                y: edge(domain.y, n.y, j + 1),
                z: edge(domain.z, n.z, k + 1),
            },
        };
        let ghost prev = row@;
        row.push(cell);
        proof {
            assert forall|c: int| 0 <= c < k + 1 implies fresh_cell(
                domain,
                n,
                #[trigger] row@[c],
                i as int,
                j as int,
                c,
            ) by {
                if c < k {
                    assert(row@[c] == prev[c]);
                }
            }
        }
        k += 1;
    }
    row
}

fn new_plane(domain: Vec3, n: Index3, i: usize) -> (plane: Vec<Vec<Box>>)
    requires
        DomainData::acceptable(domain, n),
        i < n.x,
    ensures
        fresh_plane(domain, n, plane@, i as int),
{
    let mut plane: Vec<Vec<Box>> = Vec::new();
    let mut j: usize = 0;
    while j < n.y
        invariant
            DomainData::acceptable(domain, n),
            i < n.x,
            j <= n.y,
            plane@.len() == j,
            forall|b: int|
                0 <= b < j ==> fresh_row(domain, n, (#[trigger] plane@[b])@, i as int, b, n.z as int),
        decreases n.y - j,
    {
        let row: Vec<Box> = new_row(domain, n, i, j);
        plane.push(row);
        j += 1;
    }
    plane
}

} // verus!
