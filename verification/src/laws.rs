//! What holds of the engine as a whole: properties that relate several of its
//! functions, each proved from the definitions that the functions' contracts
//! use.
use vstd::prelude::*;
use crate::boundary::{sheared_wrap_spec, shear_jump_spec};
use crate::contact::{Body, PairForce, Separation, contact_stiffness_spec, effective_radius_spec,
    effective_youngs_spec, force_vector_spec, hertz_force_spec, poisson_term_spec, separation_spec,
    unit_normal_spec};
use crate::domain::{DomainData, Frame, axis_inside, axis_near, cell_edge, end_of, touches_face};
use crate::grid::{Pair, candidate_pairs_spec, cell_filled, grid_filled, is_ghost_in, is_real_in,
    lemma_candidate_pairs, pair_from_cell, pair_from_grid};
use crate::dynamics::{angmom_to_omega_spec, spin_about_spec};
use crate::fixed::fx_div_spec;
use crate::rigid_body::{Axes, axes_spec, to_space_spec};
use crate::jacobi::{Eigen, EigenError, JacobiState, Sweep, closed_spec, element_spec, jacobi_from_spec,
    jacobi_spec, off_diagonal_spec, opening_spec, sweep_spec, threshold_spec, turned_spec};
use crate::bond::{BondData, BondEntry, assessed_spec, bonds_wf, joins, lemma_unbroken, stresses_spec,
    unbroken_spec};
use crate::friction::{coulomb_clamp_spec, length_up_spec};
use crate::rotation::{extrapolated_spec, length_spec, normalized_spec, richardson_spec, square_sum};
use crate::forces::{axis_images_spec, plain_images_spec, plain_xz_spec, plain_y_spec};
use crate::relaxation::{pair_separation_spec, relaxed_from, too_close_spec};
use crate::sphere::ParticleView;
use crate::vector::Mat3;
use crate::vector::Quat;
use crate::vector::dot_raw;
use vstd::arithmetic::div_mod::{lemma_div_multiples_vanish, lemma_fundamental_div_mod};
use crate::fixed::{SCALE, fits, isqrt, lemma_isqrt_exists, lemma_trunc_div_sign, magnitude, trunc_div,
    mul_div_spec, fx_mul_spec, sqrt_mul_spec};
use crate::forces::{Tally, apply_force_spec};
use crate::vector::Vec3;

verus! {

/// The Hertz force never pulls. For an effective modulus and an effective
/// radius that are not negative and an overlap that is positive, the contact
/// stiffness and the normal force are not negative; the force is positive as
/// soon as overlap times stiffness amounts to two whole units of the raw
/// scale, below which it rounds to nothing.
pub proof fn lemma_hertz_force_repulsive(eff_youngs: int, eff_radius: int, overlap: int)
    requires
        eff_youngs >= 0,
        eff_radius >= 0,
        overlap > 0,
        contact_stiffness_spec(eff_youngs, eff_radius, overlap).is_some(),
        hertz_force_spec(
            contact_stiffness_spec(eff_youngs, eff_radius, overlap).unwrap() as int,
            overlap,
        ).is_some(),
    ensures
        contact_stiffness_spec(eff_youngs, eff_radius, overlap).unwrap() >= 0,
        hertz_force_spec(
            contact_stiffness_spec(eff_youngs, eff_radius, overlap).unwrap() as int,
            overlap,
        ).unwrap() >= 0,
        overlap * contact_stiffness_spec(eff_youngs, eff_radius, overlap).unwrap() >= 2 * SCALE
            ==> hertz_force_spec(
            contact_stiffness_spec(eff_youngs, eff_radius, overlap).unwrap() as int,
            overlap,
        ).unwrap() > 0,
{
    let s = SCALE as int;
    assert(eff_radius * overlap >= 0) by (nonlinear_arith)
        requires
            eff_radius >= 0,
            overlap > 0,
    ;
    lemma_isqrt_exists(eff_radius * overlap);
    let root = sqrt_mul_spec(eff_radius, overlap).unwrap();
    assert(root >= 0);
    assert(eff_youngs * root >= 0) by (nonlinear_arith)
        requires
            eff_youngs >= 0,
            root >= 0,
    ;
    lemma_trunc_div_sign(eff_youngs * root, s);
    let half = fx_mul_spec(eff_youngs, root as int).unwrap();
    assert(half >= 0);
    let k = contact_stiffness_spec(eff_youngs, eff_radius, overlap).unwrap();
    assert(k == 2 * half);
    assert(overlap * k >= 0) by (nonlinear_arith)
        requires
            overlap > 0,
            k >= 0,
    ;
    lemma_trunc_div_sign(overlap * k, s);
    let work = fx_mul_spec(overlap, k as int).unwrap();
    assert(work >= 0);
    lemma_trunc_div_sign(work * 2, 3);
    if overlap * k >= 2 * s {
        assert(magnitude(overlap * k) / s >= 2) by (nonlinear_arith)
            requires
                magnitude(overlap * k) >= 2 * s,
                s > 0,
        ;
        assert(work >= 2);
    }
}

/// The effective radius of two positive radii and the effective modulus of two
/// positive moduli, with Poisson ratios between minus one and one, are not
/// negative.
pub proof fn lemma_effective_constants_sign(a: Body, b: Body)
    requires
        a.radius > 0,
        b.radius > 0,
        a.youngs_mod > 0,
        b.youngs_mod > 0,
        -SCALE <= a.poisson_ratio <= SCALE,
        -SCALE <= b.poisson_ratio <= SCALE,
    ensures
        effective_radius_spec(a.radius as int, b.radius as int).is_some() ==> effective_radius_spec(
            a.radius as int,
            b.radius as int,
        ).unwrap() >= 0,
        effective_youngs_spec(
            a.youngs_mod as int,
            a.poisson_ratio as int,
            b.youngs_mod as int,
            b.poisson_ratio as int,
        ).is_some() ==> effective_youngs_spec(
            a.youngs_mod as int,
            a.poisson_ratio as int,
            b.youngs_mod as int,
            b.poisson_ratio as int,
        ).unwrap() >= 0,
{
    let s = SCALE as int;
    let r1 = a.radius as int;
    let r2 = b.radius as int;
    let e1 = a.youngs_mod as int;
    let e2 = b.youngs_mod as int;
    let n1 = a.poisson_ratio as int;
    let n2 = b.poisson_ratio as int;
    if effective_radius_spec(r1, r2).is_some() {
        assert(r1 * r2 >= 0) by (nonlinear_arith)
            requires
                r1 > 0,
                r2 > 0,
        ;
        lemma_trunc_div_sign(r1 * r2, r1 + r2);
    }
    if effective_youngs_spec(e1, n1, e2, n2).is_some() {
        lemma_poisson_term_sign(n1);
        lemma_poisson_term_sign(n2);
        let a1 = poisson_term_spec(n1).unwrap() as int;
        let a2 = poisson_term_spec(n2).unwrap() as int;
        assert(a1 * e2 >= 0) by (nonlinear_arith)
            requires
                a1 >= 0,
                e2 > 0,
        ;
        assert(a2 * e1 >= 0) by (nonlinear_arith)
            requires
                a2 >= 0,
                e1 > 0,
        ;
        lemma_trunc_div_sign(a1 * e2, s);
        lemma_trunc_div_sign(a2 * e1, s);
        let den = fx_mul_spec(a1, e2).unwrap() + fx_mul_spec(a2, e1).unwrap();
        assert(den > 0);
        assert(e1 * e2 >= 0) by (nonlinear_arith)
            requires
                e1 > 0,
                e2 > 0,
        ;
        lemma_trunc_div_sign(e1 * e2, den);
    }
}

proof fn lemma_poisson_term_sign(nu: int)
    requires
        -SCALE <= nu <= SCALE,
        poisson_term_spec(nu).is_some(),
    ensures
        poisson_term_spec(nu).unwrap() >= 0,
{
    let s = SCALE as int;
    assert(0 <= nu * nu <= s * s) by (nonlinear_arith)
        requires
            -s <= nu <= s,
    ;
    assert((nu * nu) / s <= s) by (nonlinear_arith)
        requires
            0 <= nu * nu <= s * s,
            s > 0,
    ;
}

/// A force along the line of centres that is not negative pushes the second
/// entity away from the first: on each axis its component has the sign of the
/// separation, or is zero.
pub proof fn lemma_force_points_away(sep: Separation, total: int, halved: bool)
    requires
        total >= 0,
        sep.distance >= 0,
        unit_normal_spec(sep.delta, sep.distance as int).is_some(),
        force_vector_spec(unit_normal_spec(sep.delta, sep.distance as int).unwrap(), total, halved).is_some(),
    ensures
        ({
            let f = force_vector_spec(
                unit_normal_spec(sep.delta, sep.distance as int).unwrap(),
                total,
                halved,
            ).unwrap();
            &&& (sep.delta.x >= 0 ==> f.x >= 0) && (sep.delta.x <= 0 ==> f.x <= 0)
            &&& (sep.delta.y >= 0 ==> f.y >= 0) && (sep.delta.y <= 0 ==> f.y <= 0)
            &&& (sep.delta.z >= 0 ==> f.z >= 0) && (sep.delta.z <= 0 ==> f.z <= 0)
        }),
{
    let normal = unit_normal_spec(sep.delta, sep.distance as int).unwrap();
    lemma_component_away(sep.delta.x as int, sep.distance as int, total, halved);
    lemma_component_away(sep.delta.y as int, sep.distance as int, total, halved);
    lemma_component_away(sep.delta.z as int, sep.distance as int, total, halved);
}

/// One component of the force: the separation scaled to unit length, times
/// the magnitude, halved or not.
spec fn force_component(delta: int, distance: int, total: int, halved: bool) -> int {
    let n = if distance == 0 {
        0
    } else {
        trunc_div(delta * SCALE, distance)
    };
    let full = trunc_div(n * total, SCALE as int);
    if halved {
        trunc_div(full * 1, 2)
    } else {
        full
    }
}

proof fn lemma_component_away(delta: int, distance: int, total: int, halved: bool)
    requires
        total >= 0,
        distance >= 0,
    ensures
        delta >= 0 ==> force_component(delta, distance, total, halved) >= 0,
        delta <= 0 ==> force_component(delta, distance, total, halved) <= 0,
{
    let s = SCALE as int;
    let n = if distance == 0 {
        0
    } else {
        trunc_div(delta * s, distance)
    };
    if distance != 0 {
        lemma_trunc_div_sign(delta * s, distance);
        assert(delta >= 0 ==> delta * s >= 0) by (nonlinear_arith)
            requires
                s > 0,
        ;
        assert(delta <= 0 ==> delta * s <= 0) by (nonlinear_arith)
            requires
                s > 0,
        ;
    }
    assert(n >= 0 ==> n * total >= 0) by (nonlinear_arith)
        requires
            total >= 0,
    ;
    assert(n <= 0 ==> n * total <= 0) by (nonlinear_arith)
        requires
            total >= 0,
    ;
    lemma_trunc_div_sign(n * total, s);
    let full = trunc_div(n * total, s);
    lemma_trunc_div_sign(full * 1, 2);
}

/// The two forces of a contact are equal and opposite: what the first entity
/// loses the second gains, component by component, and no other entity's
/// force changes.
pub proof fn lemma_forces_opposite(t: Tally, first: int, second: int, f: PairForce)
    requires
        0 <= first < t.force.len(),
        0 <= second < t.force.len(),
        first != second,
        apply_force_spec(t, first, second, f).is_some(),
    ensures
        ({
            let u = apply_force_spec(t, first, second, f).unwrap();
            &&& u.force.len() == t.force.len()
            &&& u.force[first].x - t.force[first].x == -f.force.x
            &&& u.force[first].y - t.force[first].y == -f.force.y
            &&& u.force[first].z - t.force[first].z == -f.force.z
            &&& u.force[second].x - t.force[second].x == f.force.x
            &&& u.force[second].y - t.force[second].y == f.force.y
            &&& u.force[second].z - t.force[second].z == f.force.z
            &&& forall|k: int|
                0 <= k < t.force.len() && k != first && k != second ==> u.force[k] == t.force[k]
        }),
{
}

/// The centre `pos` lies in the domain, which the cells tile.
pub open spec fn in_domain(d: DomainData, pos: Vec3) -> bool {
    &&& 0 <= pos.x < d.domain.x
    &&& 0 <= pos.y < d.domain.y
    &&& 0 <= pos.z < d.domain.z
}

/// No radius is negative or above the largest radius on record.
pub open spec fn radii_bounded(p: ParticleView) -> bool {
    forall|i: int| 0 <= i < p.count() ==> 0 <= #[trigger] p.radius[i] <= p.max_radius
}

/// The spheres of entities `i` and `j` overlap where they are, without regard
/// to periodic images.
pub open spec fn overlapping(p: ParticleView, i: int, j: int) -> bool {
    match separation_spec(p.position[i], p.radius[i] as int, p.position[j], p.radius[j] as int) {
        Some(sep) => sep.overlap > 0,
        None => false,
    }
}

/// The widest that a cell can be on an axis of length `extent` cut in `n`.
pub open spec fn cell_span(extent: int, n: int) -> int {
    extent / n + 1
}

proof fn lemma_axis_cell_from(extent: int, n: int, x: int, k: int)
    requires
        0 <= k < n,
        cell_edge(extent, n, k) <= x < extent,
    ensures
        exists|c: int| 0 <= c < n && axis_inside(#[trigger] cell_edge(extent, n, c), cell_edge(extent, n, c + 1), x),
    decreases n - k,
{
    if x < cell_edge(extent, n, k + 1) {
        assert(axis_inside(cell_edge(extent, n, k), cell_edge(extent, n, k + 1), x));
    } else if k + 1 < n {
        lemma_axis_cell_from(extent, n, x, k + 1);
    } else {
        lemma_div_multiples_vanish(extent, n);
        assert(n * extent == (k + 1) * extent);
    }
}

/// On every axis some cell holds a coordinate of the domain.
proof fn lemma_axis_cell(extent: int, n: int, x: int)
    requires
        0 < n,
        0 <= x < extent,
    ensures
        exists|c: int| 0 <= c < n && axis_inside(#[trigger] cell_edge(extent, n, c), cell_edge(extent, n, c + 1), x),
{
    assert(cell_edge(extent, n, 0) == 0) by {
        assert(0 * extent == 0);
        assert(0int / n == 0) by (nonlinear_arith)
            requires
                n > 0,
        ;
    }
    lemma_axis_cell_from(extent, n, x, 0);
}

/// A cell is no wider than `cell_span`.
proof fn lemma_cell_width(extent: int, n: int, c: int)
    requires
        0 < n,
        0 <= extent,
        0 <= c,
    ensures
        cell_edge(extent, n, c + 1) - cell_edge(extent, n, c) <= cell_span(extent, n),
        cell_edge(extent, n, c + 1) - cell_edge(extent, n, c) >= 0,
{
    let a = c * extent;
    assert((c + 1) * extent == a + extent) by (nonlinear_arith)
        requires
            a == c * extent,
    ;
    lemma_fundamental_div_mod(a, n);
    lemma_fundamental_div_mod(extent, n);
    lemma_fundamental_div_mod(a + extent, n);
    let qa = a / n;
    let qe = extent / n;
    let qs = (a + extent) / n;
    assert(0 <= a % n < n && 0 <= extent % n < n && 0 <= (a + extent) % n < n) by (nonlinear_arith)
        requires
            n > 0,
    ;
    assert(n * qs <= n * (qa + qe + 1) + n - 1 && n * qs >= n * qa - (n - 1)) by (nonlinear_arith)
        requires
            a == n * qa + a % n,
            extent == n * qe + extent % n,
            a + extent == n * qs + (a + extent) % n,
            0 <= a % n < n,
            0 <= extent % n < n,
            0 <= (a + extent) % n < n,
            0 <= extent,
    ;
    assert(qs <= qa + qe + 1 && qs >= qa) by (nonlinear_arith)
        requires
            n > 0,
            n * qs <= n * (qa + qe + 1) + n - 1,
            n * qs >= n * qa - (n - 1),
    ;
}

/// Every centre in the domain lies in a cell of the grid.
pub proof fn lemma_home_cell(d: DomainData, pos: Vec3)
    requires
        d.wf(),
        in_domain(d, pos),
    ensures
        exists|i: int, j: int, k: int| d.in_grid(i, j, k) && (#[trigger] d.cell(i, j, k)).contains(pos),
{
    lemma_axis_cell(d.domain.x as int, d.collision_boxes.x as int, pos.x as int);
    lemma_axis_cell(d.domain.y as int, d.collision_boxes.y as int, pos.y as int);
    lemma_axis_cell(d.domain.z as int, d.collision_boxes.z as int, pos.z as int);
    let i = choose|c: int|
        0 <= c < d.collision_boxes.x && axis_inside(
            #[trigger] cell_edge(d.domain.x as int, d.collision_boxes.x as int, c),
            cell_edge(d.domain.x as int, d.collision_boxes.x as int, c + 1),
            pos.x as int,
        );
    let j = choose|c: int|
        0 <= c < d.collision_boxes.y && axis_inside(
            #[trigger] cell_edge(d.domain.y as int, d.collision_boxes.y as int, c),
            cell_edge(d.domain.y as int, d.collision_boxes.y as int, c + 1),
            pos.y as int,
        );
    let k = choose|c: int|
        0 <= c < d.collision_boxes.z && axis_inside(
            #[trigger] cell_edge(d.domain.z as int, d.collision_boxes.z as int, c),
            cell_edge(d.domain.z as int, d.collision_boxes.z as int, c + 1),
            pos.z as int,
        );
    assert(d.in_grid(i, j, k));
    assert(d.cell_placed(i, j, k));
    assert(d.cell(i, j, k).contains(pos));
}

/// Spheres that overlap are closer than the sum of their radii on every axis.
proof fn lemma_overlap_per_axis(c1: Vec3, r1: int, c2: Vec3, r2: int)
    requires
        0 <= r1,
        0 <= r2,
        separation_spec(c1, r1, c2, r2).is_some(),
        separation_spec(c1, r1, c2, r2).unwrap().overlap > 0,
    ensures
        -(r1 + r2) < c2.x - c1.x < r1 + r2,
        -(r1 + r2) < c2.y - c1.y < r1 + r2,
        -(r1 + r2) < c2.z - c1.z < r1 + r2,
{
    let sep = separation_spec(c1, r1, c2, r2).unwrap();
    let delta = sep.delta;
    let n = dot_raw(delta, delta);
    let reach = r1 + r2;
    let dx = delta.x as int;
    let dy = delta.y as int;
    let dz = delta.z as int;
    assert(dx * dx >= 0 && dy * dy >= 0 && dz * dz >= 0) by (nonlinear_arith);
    crate::fixed::lemma_isqrt_below(n, reach);
    assert(n < reach * reach);
    assert(-reach < dx < reach) by (nonlinear_arith)
        requires
            dx * dx < reach * reach,
            reach >= 0,
    ;
    assert(-reach < dy < reach) by (nonlinear_arith)
        requires
            dy * dy < reach * reach,
            reach >= 0,
    ;
    assert(-reach < dz < reach) by (nonlinear_arith)
        requires
            dz * dz < reach * reach,
            reach >= 0,
    ;
}

/// On one axis, a sphere that is closer than `r_other + r` to a point of a
/// cell has one end of its extent in the cell enlarged by `m`.
proof fn lemma_end_near(lo: int, hi: int, m: int, at: int, r_other: int, v: int, r: int) -> (upper: bool)
    requires
        lo <= at < hi,
        0 <= r <= m,
        0 <= r_other <= m,
        -(r_other + r) < v - at < r_other + r,
    ensures
        axis_near(lo, hi, m, end_of(v, r, upper)),
{
    v < at
}

/// The grid misses no contact. Where the grid was filled from the positions in
/// `p`, two distinct entities whose spheres overlap, one of them at least
/// with its centre in the domain, are a candidate pair: real with real in
/// one cell, the lower index first, or one of them real in its cell and the
/// other among the ghosts of that cell.
pub proof fn lemma_contact_is_candidate(d: DomainData, p: ParticleView, first: usize, second: usize)
    requires
        d.wf(),
        p.wf(),
        grid_filled(d, p),
        radii_bounded(p),
        first < second < p.count(),
        in_domain(d, p.position[first as int]) || in_domain(d, p.position[second as int]),
        overlapping(p, first as int, second as int),
    ensures
        candidate_pairs_spec(d).contains(Pair { first, second, with_ghost: false })
            || candidate_pairs_spec(d).contains(Pair { first, second, with_ghost: true })
            || candidate_pairs_spec(d).contains(Pair { first: second, second: first, with_ghost: true }),
{
    if in_domain(d, p.position[first as int]) {
        lemma_contact_from(d, p, first, second);
    } else {
        lemma_overlap_symmetric(
            p.position[first as int],
            p.radius[first as int] as int,
            p.position[second as int],
            p.radius[second as int] as int,
        );
        lemma_contact_from(d, p, second, first);
    }
}

/// Whether two spheres overlap does not depend on which is taken first.
proof fn lemma_overlap_symmetric(c1: Vec3, r1: int, c2: Vec3, r2: int)
    requires
        separation_spec(c1, r1, c2, r2).is_some(),
    ensures
        separation_spec(c2, r2, c1, r1).is_some(),
        separation_spec(c2, r2, c1, r1).unwrap().overlap == separation_spec(c1, r1, c2, r2).unwrap().overlap,
        separation_spec(c2, r2, c1, r1).unwrap().distance == separation_spec(c1, r1, c2, r2).unwrap().distance,
{
    let d = c2.minus_spec(c1).unwrap();
    let limit: int = 0x8000_0000_0000_0000;
    let (dx, dy, dz) = (d.x as int, d.y as int, d.z as int);
    assert(dx * dx >= 0 && dy * dy >= 0 && dz * dz >= 0) by (nonlinear_arith);
    crate::fixed::lemma_isqrt_below(dot_raw(d, d), limit);
    assert(dot_raw(d, d) < limit * limit);
    assert(-limit < dx && -limit < dy && -limit < dz) by (nonlinear_arith)
        requires
            dx * dx + dy * dy + dz * dz < limit * limit,
            dx * dx >= 0,
            dy * dy >= 0,
            dz * dz >= 0,
            limit > 0,
    ;
    let e = c1.minus_spec(c2).unwrap();
    assert(e.x == -d.x && e.y == -d.y && e.z == -d.z);
    assert(dot_raw(e, e) == dot_raw(d, d)) by (nonlinear_arith)
        requires
            e.x == -d.x,
            e.y == -d.y,
            e.z == -d.z,
            dot_raw(e, e) == e.x * e.x + e.y * e.y + e.z * e.z,
            dot_raw(d, d) == d.x * d.x + d.y * d.y + d.z * d.z,
    ;
}

/// Two entities whose spheres overlap, the first of them with its centre in
/// the domain, are a candidate pair of the first one's cell.
proof fn lemma_contact_from(d: DomainData, p: ParticleView, first: usize, second: usize)
    requires
        d.wf(),
        p.wf(),
        grid_filled(d, p),
        radii_bounded(p),
        first != second,
        first < p.count(),
        second < p.count(),
        in_domain(d, p.position[first as int]),
        overlapping(p, first as int, second as int),
    ensures
        first < second ==> candidate_pairs_spec(d).contains(Pair { first, second, with_ghost: false })
            || candidate_pairs_spec(d).contains(Pair { first, second, with_ghost: true }),
        second < first ==> candidate_pairs_spec(d).contains(
            Pair { first: second, second: first, with_ghost: false },
        ) || candidate_pairs_spec(d).contains(Pair { first, second, with_ghost: true }),
{
    let i = first as int;
    let j = second as int;
    let pi = p.position[i];
    let pj = p.position[j];
    let ri = p.radius[i] as int;
    let rj = p.radius[j] as int;
    let m = p.max_radius as int;
    lemma_home_cell(d, pi);
    let (a, b, c) = choose|a: int, b: int, c: int|
        d.in_grid(a, b, c) && (#[trigger] d.cell(a, b, c)).contains(pi);
    let cell = d.cell(a, b, c);
    let boundary = d.on_boundary(a, b, c);
    assert(cell_filled(cell, boundary, d.domain, p));
    assert(is_real_in(cell, p, i));
    assert(cell.reals@.contains(i as usize));
    assert(i as usize == first);
    let ia = choose|t: int| 0 <= t < cell.reals@.len() && cell.reals@[t] == first;
    lemma_overlap_per_axis(pi, ri, pj, rj);
    if cell.contains(pj) {
        assert(is_real_in(cell, p, j));
        assert(cell.reals@.contains(j as usize));
        assert(j as usize == second);
        let jb = choose|t: int| 0 <= t < cell.reals@.len() && cell.reals@[t] == second;
        if first < second {
            assert(ia < jb) by {
                if jb < ia {
                    assert(cell.reals@[jb] < cell.reals@[ia]);
                }
            }
            let q = Pair { first, second, with_ghost: false };
            assert(q.first == cell.reals@[ia] && q.second == cell.reals@[jb]);
            assert(pair_from_cell(cell, q));
            assert(pair_from_grid(d, q));
            lemma_candidate_pairs(d, q);
        } else {
            assert(jb < ia) by {
                if ia < jb {
                    assert(cell.reals@[ia] < cell.reals@[jb]);
                }
            }
            let q = Pair { first: second, second: first, with_ghost: false };
            assert(q.first == cell.reals@[jb] && q.second == cell.reals@[ia]);
            assert(pair_from_cell(cell, q));
            assert(pair_from_grid(d, q));
            lemma_candidate_pairs(d, q);
        }
    } else {
        let ux = lemma_end_near(cell.lo.x as int, cell.hi.x as int, m, pi.x as int, ri, pj.x as int, rj);
        let uy = lemma_end_near(cell.lo.y as int, cell.hi.y as int, m, pi.y as int, ri, pj.y as int, rj);
        let uz = lemma_end_near(cell.lo.z as int, cell.hi.z as int, m, pi.z as int, ri, pj.z as int, rj);
        assert(cell.holds_point_enlarged(
            end_of(pj.x as int, rj, ux),
            end_of(pj.y as int, rj, uy),
            end_of(pj.z as int, rj, uz),
            m,
        ));
        assert(cell.corner_near(pj, rj, m));
        assert(is_ghost_in(cell, boundary, d.domain, p, j));
        assert(cell.ghosts@.contains(j as usize));
        assert(j as usize == second);
        let jb = choose|t: int| 0 <= t < cell.ghosts@.len() && cell.ghosts@[t] == second;
        let q = Pair { first, second, with_ghost: true };
        assert(q.first == cell.reals@[ia] && q.second == cell.ghosts@[jb]);
        assert(pair_from_cell(cell, q));
        assert(pair_from_grid(d, q));
        lemma_candidate_pairs(d, q);
    }
}

/// Where the pairs from place `at` on have been found settled, none of them is
/// too close.
pub proof fn lemma_settled_pairs(f: Frame, p: ParticleView, radius_percentage: int, pairs: Seq<Pair>, at: int, t: int)
    requires
        0 <= at <= t < pairs.len(),
        relaxed_from(f, p, radius_percentage, pairs, at) == Some(true),
    ensures
        too_close_spec(f, p, radius_percentage, pairs[t]) == Some(false),
    decreases t - at,
{
    if at < t {
        lemma_settled_pairs(f, p, radius_percentage, pairs, at + 1, t);
    }
}

/// On one axis, two spheres that overlap in a domain at least twice as long as
/// the sum of their radii do not face each other across the boundary: each
/// is its own image.
proof fn lemma_own_image(a: int, ra: int, b: int, rb: int, extent: int)
    requires
        fits(a),
        fits(b),
        -(ra + rb) < b - a < ra + rb,
        2 * (ra + rb) <= extent,
    ensures
        axis_images_spec(a, ra, b, rb, extent) == Some((a as i64, b as i64)),
{
}

/// A settled assembly has no overlap. Where the grid was filled from the
/// positions in `p` and its candidate pairs have been found settled at the
/// threshold one, no two distinct entities, one of them at least with its
/// centre in the domain, overlap where they are. The domain is to be at
/// least four of the largest radius long on every axis, so that no sphere
/// meets its neighbour on two sides.
pub proof fn lemma_settled_has_no_overlap(d: DomainData, p: ParticleView, first: usize, second: usize)
    requires
        d.wf(),
        p.wf(),
        grid_filled(d, p),
        radii_bounded(p),
        4 * p.max_radius <= d.domain.x,
        4 * p.max_radius <= d.domain.y,
        4 * p.max_radius <= d.domain.z,
        relaxed_from(d.frame_spec(), p, SCALE as int, candidate_pairs_spec(d), 0) == Some(true),
        first < second < p.count(),
        in_domain(d, p.position[first as int]) || in_domain(d, p.position[second as int]),
    ensures
        !overlapping(p, first as int, second as int),
{
    if overlapping(p, first as int, second as int) {
        let pairs = candidate_pairs_spec(d);
        lemma_contact_is_candidate(d, p, first, second);
        let q = if pairs.contains(Pair { first, second, with_ghost: false }) {
            Pair { first, second, with_ghost: false }
        } else if pairs.contains(Pair { first, second, with_ghost: true }) {
            Pair { first, second, with_ghost: true }
        } else {
            Pair { first: second, second: first, with_ghost: true }
        };
        assert(pairs.contains(q));
        let t = choose|t: int| 0 <= t < pairs.len() && pairs[t] == q;
        lemma_settled_pairs(d.frame_spec(), p, SCALE as int, pairs, 0, t);
        lemma_still_overlapping(d, p, q);
    }
}

/// A candidate pair of two spheres that overlap where they are is too close
/// at the threshold one.
proof fn lemma_still_overlapping(d: DomainData, p: ParticleView, q: Pair)
    requires
        d.wf(),
        p.wf(),
        radii_bounded(p),
        4 * p.max_radius <= d.domain.x,
        4 * p.max_radius <= d.domain.y,
        4 * p.max_radius <= d.domain.z,
        q.first < p.count(),
        q.second < p.count(),
        overlapping(p, q.first as int, q.second as int) || overlapping(p, q.second as int, q.first as int),
        too_close_spec(d.frame_spec(), p, SCALE as int, q).is_some(),
    ensures
        too_close_spec(d.frame_spec(), p, SCALE as int, q) == Some(true),
{
    reveal(pair_separation_spec);
    let f = d.frame_spec();
    let a = p.body_spec(q.first as int);
    let b = p.body_spec(q.second as int);
    let ra = a.radius as int;
    let rb = b.radius as int;
    if !overlapping(p, q.first as int, q.second as int) {
        lemma_overlap_symmetric(b.position, rb, a.position, ra);
    }
    let sep = separation_spec(a.position, ra, b.position, rb).unwrap();
    assert(sep.overlap > 0);
    lemma_overlap_per_axis(a.position, ra, b.position, rb);
    let m = p.max_radius as int;
    assert(0 <= ra <= m && 0 <= rb <= m);
    if q.with_ghost {
        lemma_own_image(a.position.x as int, ra, b.position.x as int, rb, f.domain.x as int);
        lemma_own_image(a.position.y as int, ra, b.position.y as int, rb, f.domain.y as int);
        lemma_own_image(a.position.z as int, ra, b.position.z as int, rb, f.domain.z as int);
        assert(plain_y_spec(f, a, b) == Some((a, b)));
        assert(plain_xz_spec(f, a, b) == Some((a, b)));
        assert(plain_images_spec(f, a, b) == Some((a, b)));
    }
    assert(pair_separation_spec(f, p, q) == Some(sep));
    let reach = ra + rb;
    lemma_trunc_div_multiple(reach, SCALE as int);
    assert(SCALE * reach == reach * SCALE) by (nonlinear_arith);
    assert(fx_mul_spec(SCALE as int, reach) == Some(reach as i64));
}

/// On one axis the two centres are no further apart than a cell is wide, plus
/// the largest radius, plus the radius `r` of the second.
pub open spec fn close_on_axis(extent: int, n: int, m: int, first: int, second: int, r: int) -> bool {
    magnitude(second - first) <= cell_span(extent, n) + m + r
}

/// The grid pairs neighbours only. A candidate pair holds two distinct
/// entities. Unless the second was taken as a ghost because it comes close to
/// a face of the domain, and may meet the first through the periodic
/// boundary, the two centres are on every axis no further apart than one cell
/// width plus the largest radius plus the second's radius.
pub proof fn lemma_candidates_are_near(d: DomainData, p: ParticleView, q: Pair)
    requires
        d.wf(),
        p.wf(),
        grid_filled(d, p),
        radii_bounded(p),
        candidate_pairs_spec(d).contains(q),
    ensures
        q.first < p.count(),
        q.second < p.count(),
        q.first != q.second,
        (q.with_ghost && touches_face(
            d.domain,
            p.position[q.second as int],
            p.radius[q.second as int] as int,
            p.max_radius as int,
        )) || ({
            let c1 = p.position[q.first as int];
            let c2 = p.position[q.second as int];
            let r = p.radius[q.second as int] as int;
            let m = p.max_radius as int;
            &&& close_on_axis(d.domain.x as int, d.collision_boxes.x as int, m, c1.x as int, c2.x as int, r)
            &&& close_on_axis(d.domain.y as int, d.collision_boxes.y as int, m, c1.y as int, c2.y as int, r)
            &&& close_on_axis(d.domain.z as int, d.collision_boxes.z as int, m, c1.z as int, c2.z as int, r)
        }),
{
    lemma_candidate_pairs(d, q);
    let (a, b, c) = choose|a: int, b: int, c: int|
        d.in_grid(a, b, c) && pair_from_cell(#[trigger] d.cell(a, b, c), q);
    let cell = d.cell(a, b, c);
    let boundary = d.on_boundary(a, b, c);
    assert(cell_filled(cell, boundary, d.domain, p));
    assert(d.cell_placed(a, b, c));
    lemma_cell_width(d.domain.x as int, d.collision_boxes.x as int, a);
    lemma_cell_width(d.domain.y as int, d.collision_boxes.y as int, b);
    lemma_cell_width(d.domain.z as int, d.collision_boxes.z as int, c);
    let m = p.max_radius as int;
    if q.with_ghost {
        let (s, t) = choose|s: int, t: int|
            0 <= s < cell.reals@.len() && 0 <= t < cell.ghosts@.len() && q.first
                == #[trigger] cell.reals@[s] && q.second == #[trigger] cell.ghosts@[t];
        assert(is_real_in(cell, p, cell.reals@[s] as int));
        assert(is_ghost_in(cell, boundary, d.domain, p, cell.ghosts@[t] as int));
        let c2 = p.position[q.second as int];
        let r = p.radius[q.second as int] as int;
        if cell.corner_near(c2, r, m) {
            let (ux, uy, uz) = choose|ux: bool, uy: bool, uz: bool| #[trigger]
                cell.holds_point_enlarged(
                    end_of(c2.x as int, r, ux),
                    end_of(c2.y as int, r, uy),
                    end_of(c2.z as int, r, uz),
                    m,
                );
            assert(0 <= r);
        }
    } else {
        let (s, t) = choose|s: int, t: int|
            0 <= s < t < cell.reals@.len() && q.first == #[trigger] cell.reals@[s] && q.second
                == #[trigger] cell.reals@[t];
        assert(is_real_in(cell, p, cell.reals@[s] as int));
        assert(is_real_in(cell, p, cell.reals@[t] as int));
        assert(cell.reals@[s] < cell.reals@[t]);
        assert(0 <= p.radius[q.second as int]);
        assert(0 <= m);
    }
}

/// The rotation that turns nothing.
pub open spec fn identity_quat() -> Quat {
    Quat { w: SCALE, x: 0, y: 0, z: 0 }
}

/// The frame whose axes are the axes of space.
pub open spec fn identity_axes() -> Axes {
    Axes {
        ex: Vec3 { x: SCALE, y: 0, z: 0 },
        ey: Vec3 { x: 0, y: SCALE, z: 0 },
        ez: Vec3 { x: 0, y: 0, z: SCALE },
    }
}

/// A whole multiple of the divisor is divided without rounding.
proof fn lemma_trunc_div_multiple(k: int, d: int)
    requires
        d > 0,
    ensures
        trunc_div(k * d, d) == k,
        trunc_div(d * k, d) == k,
{
    assert(d * k == k * d) by (nonlinear_arith);
    if k >= 0 {
        assert(k * d >= 0) by (nonlinear_arith)
            requires
                k >= 0,
                d > 0,
        ;
        assert((k * d) / d == k) by (nonlinear_arith)
            requires
                d > 0,
        ;
    } else {
        assert(k * d < 0) by (nonlinear_arith)
            requires
                k < 0,
                d > 0,
        ;
        assert(-(k * d) == (-k) * d) by (nonlinear_arith);
        assert(((-k) * d) / d == -k) by (nonlinear_arith)
            requires
                d > 0,
        ;
    }
}

/// The rotation that turns nothing gives the axes of space as body axes.
pub proof fn lemma_identity_axes()
    ensures
        axes_spec(identity_quat()) == Some(identity_axes()),
{
    let s = SCALE as int;
    let h = crate::rigid_body::HALF_SCALE as int;
    assert(s * s == 1_000_000_000_000) by (nonlinear_arith)
        requires
            s == 1_000_000,
    ;
    assert(trunc_div(s * s + 0 * 0 - 0 * 0 - 0 * 0, s) == s) by {
        lemma_trunc_div_multiple(s, s);
    }
    assert(trunc_div(s * s - 0 * 0 + 0 * 0 - 0 * 0, s) == s) by {
        lemma_trunc_div_multiple(s, s);
    }
    assert(trunc_div(s * s - 0 * 0 - 0 * 0 + 0 * 0, s) == s) by {
        lemma_trunc_div_multiple(s, s);
    }
    assert(s * 0 == 0 && 0 * s == 0 && 0 * 0 == 0);
    assert(trunc_div(0, h) == 0);
}

/// For a body whose axes are the axes of space and that has inertia about all
/// three of them, the angular velocity is the angular momentum divided by the
/// principal moments, component by component.
pub proof fn lemma_omega_of_aligned_body(momentum: Vec3, inertia: Vec3)
    requires
        inertia.x != 0,
        inertia.y != 0,
        inertia.z != 0,
    ensures
        angmom_to_omega_spec(momentum, axes_spec(identity_quat()).unwrap(), inertia) == (match (
            fx_div_spec(momentum.x as int, inertia.x as int),
            fx_div_spec(momentum.y as int, inertia.y as int),
            fx_div_spec(momentum.z as int, inertia.z as int),
        ) {
            (Some(x), Some(y), Some(z)) => Some(Vec3 { x, y, z }),
            _ => None,
        }),
{
    lemma_identity_axes();
    let axes = identity_axes();
    let s = SCALE as int;
    lemma_trunc_div_multiple(momentum.x as int, s);
    lemma_trunc_div_multiple(momentum.y as int, s);
    lemma_trunc_div_multiple(momentum.z as int, s);
    assert(momentum.dot_spec(axes.ex) == Some(momentum.x)) by {
        assert(momentum.y * 0 == 0 && momentum.z * 0 == 0);
    }
    assert(momentum.dot_spec(axes.ey) == Some(momentum.y)) by {
        assert(momentum.x * 0 == 0 && momentum.z * 0 == 0);
    }
    assert(momentum.dot_spec(axes.ez) == Some(momentum.z)) by {
        assert(momentum.x * 0 == 0 && momentum.y * 0 == 0);
    }
    let wx = spin_about_spec(momentum, axes.ex, inertia.x as int);
    let wy = spin_about_spec(momentum, axes.ey, inertia.y as int);
    let wz = spin_about_spec(momentum, axes.ez, inertia.z as int);
    assert(wx == fx_div_spec(momentum.x as int, inertia.x as int));
    assert(wy == fx_div_spec(momentum.y as int, inertia.y as int));
    assert(wz == fx_div_spec(momentum.z as int, inertia.z as int));
    if wx.is_some() && wy.is_some() && wz.is_some() {
        let w = Vec3 { x: wx.unwrap(), y: wy.unwrap(), z: wz.unwrap() };
        lemma_trunc_div_multiple(w.x as int, s);
        lemma_trunc_div_multiple(w.y as int, s);
        lemma_trunc_div_multiple(w.z as int, s);
        assert(0 * w.x == 0 && 0 * w.y == 0 && 0 * w.z == 0);
        assert(to_space_spec(axes, w) == Some(w));
    }
}

/// A tensor that is diagonal already is left as it is: its eigenvalues are
/// the entries on the diagonal, and its eigenvectors are the axes of space.
/// Of the entries off the diagonal the method reads the ones above it.
pub proof fn lemma_diagonal_unchanged(tensor: Mat3)
    requires
        tensor.x.y == 0,
        tensor.x.z == 0,
        tensor.y.z == 0,
    ensures
        jacobi_spec(tensor) == Ok::<Eigen, EigenError>(
            Eigen {
                vectors: Mat3::identity_spec(),
                values: Vec3 { x: tensor.x.x, y: tensor.y.y, z: tensor.z.z },
            },
        ),
{
    let st = opening_spec(tensor);
    assert(off_diagonal_spec(st.matrix) == Some(0i64));
    assert(sweep_spec(st, 1) == Some(Sweep::Done(st)));
    assert(jacobi_from_spec(st, 1, crate::jacobi::MAXJACOBI as int) == Ok::<Eigen, EigenError>(
        Eigen { vectors: st.vectors, values: st.values },
    ));
}

/// One component of a quaternion taken to unit length: with `c` the component,
/// `n` the length of the quaternion and `u` the component of the unit
/// quaternion, `u` is within one, `n * u` is no larger in magnitude than
/// `SCALE * c`, and its square falls short of the square of `SCALE * c` by
/// less than `2 * SCALE * n * n`.
proof fn lemma_unit_component(c: int, n: int, total: int)
    requires
        n >= 1,
        c * c <= total < (n + 1) * (n + 1),
    ensures
        ({
            let u = trunc_div(c * SCALE, n);
            &&& -SCALE <= u <= SCALE
            &&& n * n * (u * u) <= SCALE * SCALE * (c * c)
            &&& n * n * (u * u) >= SCALE * SCALE * (c * c) - 2 * SCALE * (n * n)
        }),
{
    let s = SCALE as int;
    let m = magnitude(c);
    assert(m <= n) by (nonlinear_arith)
        requires
            c * c < (n + 1) * (n + 1),
            n >= 1,
            m == (if c < 0 { -c } else { c }),
    ;
    assert(m * m == c * c) by (nonlinear_arith)
        requires
            m == (if c < 0 { -c } else { c }),
    ;
    let x = m * s;
    assert(magnitude(c * SCALE) == x) by (nonlinear_arith)
        requires
            x == m * s,
            s == SCALE,
            s > 0,
            m == (if c < 0 { -c } else { c }),
            magnitude(c * SCALE) == (if c * SCALE < 0 { -(c * SCALE) } else { c * SCALE }),
    ;
    let k = x / n;
    let r = x % n;
    lemma_fundamental_div_mod(x, n);
    assert(0 <= r < n) by (nonlinear_arith)
        requires
            r == x % n,
            n >= 1,
    ;
    assert(x == n * k + r);
    let u = trunc_div(c * SCALE, n);
    assert(magnitude(u) == k) by {
        assert(0 <= x) by (nonlinear_arith)
            requires
                x == m * s,
                m >= 0,
                s > 0,
        ;
        assert(k >= 0) by (nonlinear_arith)
            requires
                x == n * k + r,
                0 <= x,
                0 <= r < n,
                n >= 1,
        ;
    }
    assert(u * u == k * k) by (nonlinear_arith)
        requires
            magnitude(u) == k,
            magnitude(u) == (if u < 0 { -u } else { u }),
    ;
    let y = n * k;
    assert(0 <= y <= x && y > x - n);
    assert(x <= s * n) by (nonlinear_arith)
        requires
            x == m * s,
            0 <= m <= n,
            s > 0,
    ;
    assert(k <= s) by (nonlinear_arith)
        requires
            y == n * k,
            y <= x,
            x <= s * n,
            n >= 1,
    ;
    assert(n * n * (k * k) == y * y) by (nonlinear_arith)
        requires
            y == n * k,
    ;
    assert(x * x == s * s * (c * c)) by (nonlinear_arith)
        requires
            x == m * s,
            m * m == c * c,
    ;
    assert(y * y <= x * x) by (nonlinear_arith)
        requires
            0 <= y <= x,
    ;
    assert(y * y >= x * x - 2 * n * x) by (nonlinear_arith)
        requires
            0 <= y <= x,
            y > x - n,
            n >= 1,
    ;
    assert(2 * n * x <= 2 * s * (n * n)) by (nonlinear_arith)
        requires
            0 <= x <= s * n,
            n >= 1,
    ;
}

/// A quaternion that has been taken to unit length has unit length, as far as
/// whole raw units allow: no component is beyond one, and the sum of the
/// squares of the components is at least `SCALE * SCALE - 8 * SCALE`. Where
/// the quaternion was at least of unit length before, the sum is below
/// `(SCALE + 1) * (SCALE + 1)`. Every step of a rotation ends with this.
pub proof fn lemma_normalized_is_unit(q: Quat)
    requires
        normalized_spec(q).is_some(),
    ensures
        ({
            let u = normalized_spec(q).unwrap();
            &&& -SCALE <= u.w <= SCALE
            &&& -SCALE <= u.x <= SCALE
            &&& -SCALE <= u.y <= SCALE
            &&& -SCALE <= u.z <= SCALE
            &&& square_sum(u) >= SCALE * SCALE - 8 * SCALE
            &&& length_spec(q).unwrap() >= SCALE ==> square_sum(u) < (SCALE + 1) * (SCALE + 1)
        }),
{
    let s = SCALE as int;
    let u = normalized_spec(q).unwrap();
    let total = square_sum(q);
    let n = length_spec(q).unwrap() as int;
    let (w, x, y, z) = (q.w as int, q.x as int, q.y as int, q.z as int);
    assert(w * w >= 0 && x * x >= 0 && y * y >= 0 && z * z >= 0) by (nonlinear_arith);
    lemma_isqrt_exists(total);
    assert(n >= 1);
    lemma_unit_component(w, n, total);
    lemma_unit_component(x, n, total);
    lemma_unit_component(y, n, total);
    lemma_unit_component(z, n, total);
    let (a, b, c, d) = (u.w as int, u.x as int, u.y as int, u.z as int);
    assert(a == trunc_div(w * SCALE, n));
    assert(b == trunc_div(x * SCALE, n));
    assert(c == trunc_div(y * SCALE, n));
    assert(d == trunc_div(z * SCALE, n));
    let sum = a * a + b * b + c * c + d * d;
    assert(square_sum(u) == sum);
    let nn = n * n;
    let ss = s * s;
    let (na, nb, nc, nd) = (nn * (a * a), nn * (b * b), nn * (c * c), nn * (d * d));
    let (sw, sx, sy, sz) = (ss * (w * w), ss * (x * x), ss * (y * y), ss * (z * z));
    let k = s * nn;
    let slack = 2 * k;
    assert(2 * s * nn == 2 * k) by (nonlinear_arith)
        requires
            k == s * nn,
    ;
    assert(sw - slack <= na <= sw);
    assert(sx - slack <= nb <= sx);
    assert(sy - slack <= nc <= sy);
    assert(sz - slack <= nd <= sz);
    assert(nn * sum == na + nb + nc + nd) by (nonlinear_arith)
        requires
            sum == a * a + b * b + c * c + d * d,
            na == nn * (a * a),
            nb == nn * (b * b),
            nc == nn * (c * c),
            nd == nn * (d * d),
    ;
    assert(ss * total == sw + sx + sy + sz) by (nonlinear_arith)
        requires
            total == w * w + x * x + y * y + z * z,
            sw == ss * (w * w),
            sx == ss * (x * x),
            sy == ss * (y * y),
            sz == ss * (z * z),
    ;
    assert(nn * sum >= ss * total - 8 * k);
    assert(8 * s * (n * n) == 8 * k) by (nonlinear_arith)
        requires
            k == s * nn,
            nn == n * n,
    ;
    assert(n * n * sum >= s * s * total - 8 * s * (n * n));
    assert(n * n * sum <= s * s * total);
    assert(s * s * total >= s * s * (n * n)) by (nonlinear_arith)
        requires
            total >= n * n,
    ;
    assert(sum >= s * s - 8 * s) by (nonlinear_arith)
        requires
            n * n * sum >= s * s * (n * n) - 8 * s * (n * n),
            n >= 1,
    ;
    if n >= s {
        assert(s * s * total < s * s * ((n + 1) * (n + 1))) by (nonlinear_arith)
            requires
                total < (n + 1) * (n + 1),
                s > 0,
        ;
        assert(s * s * ((n + 1) * (n + 1)) <= (s + 1) * (s + 1) * (n * n)) by (nonlinear_arith)
            requires
                n >= s,
                s >= 1,
        ;
        assert(sum < (s + 1) * (s + 1)) by (nonlinear_arith)
            requires
                n * n * sum < (s + 1) * (s + 1) * (n * n),
                n >= 1,
        ;
    }
}

/// A step of rotation leaves the rotation of unit length, as far as whole raw
/// units allow: whatever the angular momentum and the step, the quaternion
/// that comes out has no component beyond one, and the sum of the squares of
/// its components is at least `SCALE * SCALE - 8 * SCALE`.
pub proof fn lemma_rotation_stays_unit(q: Quat, momentum: Vec3, omega: Vec3, inertia: Vec3, dtq: int)
    requires
        richardson_spec(q, momentum, omega, inertia, dtq).is_some(),
    ensures
        ({
            let u = richardson_spec(q, momentum, omega, inertia, dtq).unwrap();
            &&& -SCALE <= u.w <= SCALE
            &&& -SCALE <= u.x <= SCALE
            &&& -SCALE <= u.y <= SCALE
            &&& -SCALE <= u.z <= SCALE
            &&& square_sum(u) >= SCALE * SCALE - 8 * SCALE
        }),
{
    let u = richardson_spec(q, momentum, omega, inertia, dtq).unwrap();
    let before = choose|before: Quat| normalized_spec(before) == Some(u);
    assert(exists|before: Quat| normalized_spec(before) == Some(u)) by {
        lemma_richardson_ends_normalized(q, momentum, omega, inertia, dtq);
    }
    lemma_normalized_is_unit(before);
}

/// What a step of rotation gives is some quaternion taken to unit length.
proof fn lemma_richardson_ends_normalized(q: Quat, momentum: Vec3, omega: Vec3, inertia: Vec3, dtq: int)
    requires
        richardson_spec(q, momentum, omega, inertia, dtq).is_some(),
    ensures
        exists|before: Quat|
            normalized_spec(before) == Some(richardson_spec(q, momentum, omega, inertia, dtq).unwrap()),
{
    let rate = crate::rotation::vecquat_spec(omega, q).unwrap();
    let half_dtq = mul_div_spec(dtq, 1, 2).unwrap();
    let full = crate::rotation::stepped_spec(q, rate, dtq).unwrap();
    let half = crate::rotation::stepped_spec(q, rate, half_dtq as int).unwrap();
    let axes = axes_spec(half).unwrap();
    let omega_half = angmom_to_omega_spec(momentum, axes, inertia).unwrap();
    let rate_half = crate::rotation::vecquat_spec(omega_half, half).unwrap();
    let second = crate::rotation::stepped_spec(half, rate_half, half_dtq as int).unwrap();
    let before = Quat {
        w: (2 * second.w - full.w) as i64,
        x: (2 * second.x - full.x) as i64,
        y: (2 * second.y - full.y) as i64,
        z: (2 * second.z - full.z) as i64,
    };
    assert(extrapolated_spec(second, full) == normalized_spec(before));
    assert(normalized_spec(before) == Some(richardson_spec(q, momentum, omega, inertia, dtq).unwrap()));
}

/// A bond under more stress than it can bear breaks: where the normal stress
/// is above `sigma_max`, or the shear stress above `tau_max`, the bond is
/// broken once it has been assessed. A broken bond stays broken.
pub proof fn lemma_overstressed_bond_breaks(b: BondData, r: int)
    requires
        stresses_spec(b, r).is_some(),
    ensures
        assessed_spec(b, r).is_some(),
        assessed_spec(b, r).unwrap().broken == (b.broken || stresses_spec(b, r).unwrap().0 > b.sigma_max
            || stresses_spec(b, r).unwrap().1 > b.tau_max),
{
}

/// A broken bond is gone after the sweep: where the bond of the pair `(i, j)`
/// is broken, no bond of the pair is left among the unbroken ones.
pub proof fn lemma_broken_bond_is_swept(entries: Seq<BondEntry>, t: int, i: usize, j: usize)
    requires
        bonds_wf(entries),
        0 <= t < entries.len(),
        joins(entries[t], i, j),
        entries[t].bond.broken,
    ensures
        forall|s: int|
            0 <= s < unbroken_spec(entries, entries.len() as int).len() ==> !joins(
                #[trigger] unbroken_spec(entries, entries.len() as int)[s],
                i,
                j,
            ),
{
    let kept = unbroken_spec(entries, entries.len() as int);
    assert forall|s: int| 0 <= s < kept.len() implies !joins(#[trigger] kept[s], i, j) by {
        let e = kept[s];
        assert(kept.contains(e));
        lemma_unbroken(entries, entries.len() as int, e);
        let a = choose|a: int| 0 <= a < entries.len() && #[trigger] entries[a] == e;
        if joins(e, i, j) {
            assert(a != t);
            if a < t {
                assert(!(entries[a].first == entries[t].first && entries[a].second == entries[t].second));
            } else {
                assert(!(entries[t].first == entries[a].first && entries[t].second == entries[a].second));
            }
        }
    }
}

/// One component of a force cut down to the limit `limit` by the divisor
/// `divisor`: its square, times the square of the divisor, is at most the
/// square of the component times the square of the limit.
proof fn lemma_cut_component(c: int, limit: int, divisor: int)
    requires
        0 <= limit,
        0 < divisor,
    ensures
        divisor * divisor * (trunc_div(c * limit, divisor) * trunc_div(c * limit, divisor)) <= limit * limit * (c
            * c),
{
    let x = magnitude(c * limit);
    let u = trunc_div(c * limit, divisor);
    let k = x / divisor;
    lemma_fundamental_div_mod(x, divisor);
    assert(0 <= x % divisor) by (nonlinear_arith)
        requires
            divisor > 0,
    ;
    assert(u * u == k * k) by (nonlinear_arith)
        requires
            u == k || u == -k,
    ;
    let y = divisor * k;
    assert(0 <= k) by (nonlinear_arith)
        requires
            x == divisor * k + x % divisor,
            0 <= x,
            0 <= x % divisor < divisor,
            divisor > 0,
    ;
    assert(0 <= y <= x) by (nonlinear_arith)
        requires
            x == y + x % divisor,
            0 <= x % divisor,
            y == divisor * k,
            0 <= k,
            divisor > 0,
    ;
    assert(y * y <= x * x) by (nonlinear_arith)
        requires
            0 <= y <= x,
    ;
    assert(x * x == limit * limit * (c * c)) by (nonlinear_arith)
        requires
            x == c * limit || x == -(c * limit),
    ;
    assert(divisor * divisor * (k * k) == y * y) by (nonlinear_arith)
        requires
            y == divisor * k,
    ;
}

/// Friction limits the tangential force: whatever force goes in, the force
/// that comes out of the clamp is no longer than the limit.
pub proof fn lemma_clamp_keeps_limit(t: Vec3, limit: int)
    requires
        coulomb_clamp_spec(t, limit).is_some(),
    ensures
        dot_raw(coulomb_clamp_spec(t, limit).unwrap(), coulomb_clamp_spec(t, limit).unwrap()) <= limit * limit,
{
    let c = coulomb_clamp_spec(t, limit).unwrap();
    let total = dot_raw(t, t);
    let (x, y, z) = (t.x as int, t.y as int, t.z as int);
    assert(x * x >= 0 && y * y >= 0 && z * z >= 0) by (nonlinear_arith);
    lemma_isqrt_exists(total);
    let n = isqrt(total);
    let up = length_up_spec(t);
    assert(up * up >= total) by (nonlinear_arith)
        requires
            n * n <= total < (n + 1) * (n + 1),
            up == (if n * n == total { n } else { n + 1 }),
    ;
    assert(up >= 0);
    if up <= limit {
        assert(up * up <= limit * limit) by (nonlinear_arith)
            requires
                0 <= up <= limit,
        ;
    } else {
        lemma_cut_component(x, limit, up);
        lemma_cut_component(y, limit, up);
        lemma_cut_component(z, limit, up);
        let (a, b, d) = (c.x as int, c.y as int, c.z as int);
        assert(a == trunc_div(x * limit, up));
        assert(b == trunc_div(y * limit, up));
        assert(d == trunc_div(z * limit, up));
        let uu = up * up;
        let ll = limit * limit;
        let (ua, ub, ud) = (uu * (a * a), uu * (b * b), uu * (d * d));
        let (lx, ly, lz) = (ll * (x * x), ll * (y * y), ll * (z * z));
        assert(ua <= lx && ub <= ly && ud <= lz);
        let sum = a * a + b * b + d * d;
        assert(dot_raw(c, c) == sum);
        assert(uu * sum == ua + ub + ud) by (nonlinear_arith)
            requires
                sum == a * a + b * b + d * d,
                ua == uu * (a * a),
                ub == uu * (b * b),
                ud == uu * (d * d),
        ;
        assert(ll * total == lx + ly + lz) by (nonlinear_arith)
            requires
                total == x * x + y * y + z * z,
                lx == ll * (x * x),
                ly == ll * (y * y),
                lz == ll * (z * z),
        ;
        assert(ll * total <= ll * uu) by (nonlinear_arith)
            requires
                total <= uu,
                ll >= 0,
        ;
        assert(uu > 0) by (nonlinear_arith)
            requires
                uu == up * up,
                up > limit,
                limit >= 0,
        ;
        assert(sum <= ll) by (nonlinear_arith)
            requires
                uu * sum <= ll * uu,
                uu > 0,
        ;
    }
}

/// The sum of the three components.
pub open spec fn total(v: Vec3) -> int {
    v.x + v.y + v.z
}

/// The eigenvalue estimates of `st`, and the estimates of the start of the
/// sweep with the changes since, both sum to `trace`.
spec fn keeps_trace(st: JacobiState, trace: int) -> bool {
    &&& total(st.values) == trace
    &&& total(st.b) + total(st.z) == trace
}

proof fn lemma_element_keeps_trace(st: JacobiState, i: int, j: int, threshold: int, trace: int)
    requires
        0 <= i < j < 3,
        keeps_trace(st, trace),
        element_spec(st, i, j, threshold).is_some(),
    ensures
        keeps_trace(element_spec(st, i, j, threshold).unwrap(), trace),
{
    let next = element_spec(st, i, j, threshold).unwrap();
    if next != st {
        assert(turned_spec(st, i, j) == Some(next));
    }
}

proof fn lemma_sweeps_keep_trace(st: JacobiState, sweep: int, last: int, trace: int)
    requires
        keeps_trace(st, trace),
        jacobi_from_spec(st, sweep, last).is_ok(),
    ensures
        total(jacobi_from_spec(st, sweep, last).unwrap().values) == trace,
    decreases last - sweep + 1,
{
    if sweep <= last {
        match sweep_spec(st, sweep) {
            Some(Sweep::Done(end)) => {},
            Some(Sweep::Turned(next)) => {
                let sum = off_diagonal_spec(st.matrix).unwrap();
                let threshold = threshold_spec(sweep, sum as int).unwrap() as int;
                let s1 = element_spec(st, 0, 1, threshold).unwrap();
                lemma_element_keeps_trace(st, 0, 1, threshold, trace);
                let s2 = element_spec(s1, 0, 2, threshold).unwrap();
                lemma_element_keeps_trace(s1, 0, 2, threshold, trace);
                let s3 = element_spec(s2, 1, 2, threshold).unwrap();
                lemma_element_keeps_trace(s2, 1, 2, threshold, trace);
                assert(closed_spec(s3) == Some(next));
                assert(keeps_trace(next, trace));
                lemma_sweeps_keep_trace(next, sweep + 1, last, trace);
            },
            None => {},
        }
    }
}

/// The eigenvalues that the method finds sum to the trace of the tensor: no
/// turn changes the sum, whatever it rounds.
pub proof fn lemma_trace_kept(tensor: Mat3)
    requires
        jacobi_spec(tensor).is_ok(),
    ensures
        total(jacobi_spec(tensor).unwrap().values) == tensor.x.x + tensor.y.y + tensor.z.z,
{
    lemma_sweeps_keep_trace(
        opening_spec(tensor),
        1,
        crate::jacobi::MAXJACOBI as int,
        tensor.x.x + tensor.y.y + tensor.z.z,
    );
}

/// An entity that has crossed the upper `y` face is taken back one height,
/// loses exactly the shear rate times the height of its velocity along `x`,
/// and has its place along `x` taken back into the domain, into `(0, x
/// extent]`. This holds for an entity that is less than one extent outside
/// the domain along `x`, and for a shear offset that was kept within one
/// extent. The place along `x` is below the extent itself unless the place
/// less the offset is a whole number of extents.
pub proof fn lemma_upper_crossing(d: Frame, ledisplace: int, pos: Vec3, vel: Vec3)
    requires
        0 < d.domain.x,
        0 < d.domain.y,
        0 < d.domain.z,
        pos.y > d.domain.y,
        0 <= ledisplace < d.domain.x,
        -d.domain.x < pos.x <= 2 * d.domain.x,
        sheared_wrap_spec(d, ledisplace, pos, vel).is_some(),
    ensures
        shear_jump_spec(d).is_some(),
        ({
            let (c2, v2) = sheared_wrap_spec(d, ledisplace, pos, vel).unwrap();
            let jump = shear_jump_spec(d).unwrap();
            let shifted = pos.x - ledisplace;
            &&& v2.x == vel.x - jump
            &&& v2.y == vel.y
            &&& v2.z == vel.z
            &&& c2.y == pos.y - d.domain.y
            &&& 0 < c2.x <= d.domain.x
            &&& (shifted != -d.domain.x && shifted != 0 && shifted != d.domain.x && shifted != 2
                * d.domain.x) ==> c2.x < d.domain.x
        }),
{
}

} // verus!
