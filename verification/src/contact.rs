//! Contact between two spheres: the geometry of the overlap, the effective
//! material constants, and the Hertz normal force with its damping.
use vstd::prelude::*;
use crate::fixed::{SCALE, narrow, fx_add, fx_sub, fx_mul, fx_mul_spec, mul_div, mul_div_spec, sqrt_mul,
    sqrt_mul_spec};
use crate::vector::{Mat3, Vec3};

verus! {

/// `2 * sqrt(5 / 6)`, the constant of the damping law, as a raw value.
pub const DAMPING_FACTOR: i64 = 1_825_742;

/// What the contact laws read of one entity.
#[derive(Clone, Copy, Debug, PartialEq, Eq, Structural)]
pub struct Body {
    pub position: Vec3,
    pub velocity: Vec3,
    pub radius: i64,
    pub mass: i64,
    pub youngs_mod: i64,
    pub poisson_ratio: i64,
}

/// How two spheres lie to each other: the vector from the first centre to the
/// second, its length, and by how much the spheres overlap (not positive
/// where they are apart).
#[derive(Clone, Copy, Debug, PartialEq, Eq, Structural)]
pub struct Separation {
    pub delta: Vec3,
    pub distance: i64,
    pub overlap: i64,
}

/// The force that a contact puts on the second entity, the vector from the
/// first centre to the second, and the tensor product of the two. The first
/// entity receives the opposite force.
#[derive(Clone, Copy, Debug, PartialEq, Eq, Structural)]
pub struct PairForce {
    pub force: Vec3,
    pub delta: Vec3,
    pub tensor: Mat3,
}

/// The outcome of testing one pair.
#[derive(Clone, Copy, Debug, PartialEq, Eq, Structural)]
pub enum Touch {
    /// The centres are at least the sum of the radii apart.
    Apart,
    /// The spheres overlap.
    Pressing(PairForce),
}

/// The effective constants of a pair.
#[derive(Clone, Copy, Debug, PartialEq, Eq, Structural)]
pub struct PairConstants {
    pub eff_radius: i64,
    pub eff_youngs_mod: i64,
    pub reduced_mass: i64,
}

/// `separation` of two spheres: `delta = c2 - c1`, `distance = |delta|`
/// rounded down, `overlap = r1 + r2 - distance`.
pub open spec fn separation_spec(c1: Vec3, r1: int, c2: Vec3, r2: int) -> Option<Separation> {
    match (c2.minus_spec(c1), narrow(r1 + r2)) {
        (Some(delta), Some(reach)) => match delta.norm_spec() {
            Some(distance) => match narrow(reach - distance) {
                Some(overlap) => Some(Separation { delta, distance, overlap }),
                None => None,
            },
            None => None,
        },
        _ => None,
    }
}

/// The unit vector along `delta`, scaled by `SCALE`; the zero vector where the
/// centres coincide and no direction exists.
pub open spec fn unit_normal_spec(delta: Vec3, distance: int) -> Option<Vec3> {
    if distance == 0 {
        Some(Vec3::zero_spec())
    } else {
        delta.times_spec(SCALE as int, distance)
    }
}

/// `1 / (1 / r1 + 1 / r2)`, as `r1 * r2 / (r1 + r2)` with one rounding.
pub open spec fn effective_radius_spec(r1: int, r2: int) -> Option<i64> {
    match narrow(r1 + r2) {
        Some(sum) => mul_div_spec(r1, r2, sum as int),
        None => None,
    }
}

/// `1 - nu * nu` as a raw value.
pub open spec fn poisson_term_spec(nu: int) -> Option<i64> {
    match fx_mul_spec(nu, nu) {
        Some(sq) => narrow(SCALE - sq),
        None => None,
    }
}

/// `1 / ((1 - nu1^2) / e1 + (1 - nu2^2) / e2)`, as
/// `e1 * e2 / ((1 - nu1^2) * e2 + (1 - nu2^2) * e1)`.
pub open spec fn effective_youngs_spec(e1: int, nu1: int, e2: int, nu2: int) -> Option<i64> {
    match (poisson_term_spec(nu1), poisson_term_spec(nu2)) {
        (Some(a1), Some(a2)) => match (fx_mul_spec(a1 as int, e2), fx_mul_spec(a2 as int, e1)) {
            (Some(t1), Some(t2)) => match narrow(t1 + t2) {
                Some(den) => mul_div_spec(e1, e2, den as int),
                None => None,
            },
            _ => None,
        },
        _ => None,
    }
}

/// `m1 * m2 / (m1 + m2)`.
pub open spec fn reduced_mass_spec(m1: int, m2: int) -> Option<i64> {
    match narrow(m1 + m2) {
        Some(sum) => mul_div_spec(m1, m2, sum as int),
        None => None,
    }
}

/// The three effective constants of the pair `a`, `b`.
pub open spec fn pair_constants_spec(a: Body, b: Body) -> Option<PairConstants> {
    match (
        effective_radius_spec(a.radius as int, b.radius as int),
        effective_youngs_spec(
            a.youngs_mod as int,
            a.poisson_ratio as int,
            b.youngs_mod as int,
            b.poisson_ratio as int,
        ),
        reduced_mass_spec(a.mass as int, b.mass as int),
    ) {
        (Some(eff_radius), Some(eff_youngs_mod), Some(reduced_mass)) => Some(
            PairConstants { eff_radius, eff_youngs_mod, reduced_mass },
        ),
        _ => None,
    }
}

/// The contact stiffness `2 * E * sqrt(r * overlap)`.
pub open spec fn contact_stiffness_spec(eff_youngs: int, eff_radius: int, overlap: int) -> Option<i64> {
    match sqrt_mul_spec(eff_radius, overlap) {
        Some(root) => match fx_mul_spec(eff_youngs, root as int) {
            Some(half) => narrow(2 * half),
            None => None,
        },
        None => None,
    }
}

/// The Hertz normal force `(2 / 3) * overlap * stiffness`, which is
/// `(4 / 3) * E * sqrt(r) * overlap^(3/2)`.
pub open spec fn hertz_force_spec(stiffness: int, overlap: int) -> Option<i64> {
    match fx_mul_spec(overlap, stiffness) {
        Some(work) => mul_div_spec(work as int, 2, 3),
        None => None,
    }
}

/// The damping force `2 * sqrt(5/6) * beta * sqrt(2 * stiffness * mass) * approach`,
/// where `approach` is the relative velocity along the normal, with its sign.
pub open spec fn dissipation_spec(beta: int, stiffness: int, mass: int, approach: int) -> Option<i64> {
    match (narrow(2 * stiffness), fx_mul_spec(DAMPING_FACTOR as int, beta)) {
        (Some(twice), Some(coefficient)) => match sqrt_mul_spec(twice as int, mass) {
            Some(root) => match fx_mul_spec(coefficient as int, root as int) {
                Some(rate) => fx_mul_spec(rate as int, approach),
                None => None,
            },
            None => None,
        },
        _ => None,
    }
}

/// The tensor product of `f` and `d`: entry `(a, b)` is `f[a] * d[b]`.
pub open spec fn outer_spec(f: Vec3, d: Vec3) -> Option<Mat3> {
    match (f.x_times_spec(d), f.y_times_spec(d), f.z_times_spec(d)) {
        (Some(x), Some(y), Some(z)) => Some(Mat3 { x, y, z }),
        _ => None,
    }
}

/// The magnitude of the force along the normal: the Hertz force less the
/// damping force.
pub open spec fn normal_force_spec(c: PairConstants, beta: int, overlap: int, approach: int) -> Option<i64> {
    match contact_stiffness_spec(c.eff_youngs_mod as int, c.eff_radius as int, overlap) {
        Some(stiffness) => match (
            hertz_force_spec(stiffness as int, overlap),
            dissipation_spec(beta, stiffness as int, c.reduced_mass as int, approach),
        ) {
            (Some(elastic), Some(damping)) => narrow(elastic - damping),
            _ => None,
        },
        None => None,
    }
}

/// The force vector of magnitude `total` along `normal`, halved where the pair
/// is seen from both of its cells.
pub open spec fn force_vector_spec(normal: Vec3, total: int, halved: bool) -> Option<Vec3> {
    match normal.times_spec(total, SCALE as int) {
        Some(full) => if halved {
            full.times_spec(1, 2)
        } else {
            Some(full)
        },
        None => None,
    }
}

/// The force between two overlapping spheres that lie as `sep` says.
pub open spec fn pressing_force_spec(a: Body, b: Body, beta: int, sep: Separation, halved: bool) -> Option<
    PairForce,
> {
    match (
        unit_normal_spec(sep.delta, sep.distance as int),
        pair_constants_spec(a, b),
        b.velocity.minus_spec(a.velocity),
    ) {
        (Some(normal), Some(c), Some(dv)) => match normal.dot_spec(dv) {
            Some(approach) => match normal_force_spec(c, beta, sep.overlap as int, approach as int) {
                Some(total) => match force_vector_spec(normal, total as int, halved) {
                    Some(force) => match outer_spec(force, sep.delta) {
                        Some(tensor) => Some(PairForce { force, delta: sep.delta, tensor }),
                        None => None,
                    },
                    None => None,
                },
                None => None,
            },
            None => None,
        },
        _ => None,
    }
}

/// Tests the pair `a`, `b` and gives the contact force where they overlap.
/// `None` where a quantity on the way has no `i64` representation.
pub open spec fn pair_contact_spec(a: Body, b: Body, beta: int, halved: bool) -> Option<Touch> {
    match separation_spec(a.position, a.radius as int, b.position, b.radius as int) {
        Some(sep) => if sep.overlap <= 0 {
            Some(Touch::Apart)
        } else {
            match pressing_force_spec(a, b, beta, sep, halved) {
                Some(f) => Some(Touch::Pressing(f)),
                None => None,
            }
        },
        None => None,
    }
}

pub fn separation(c1: Vec3, r1: i64, c2: Vec3, r2: i64) -> (r: Option<Separation>)
    ensures
        r == separation_spec(c1, r1 as int, c2, r2 as int),
{
    let delta: Option<Vec3> = c2.minus(&c1);
    let reach: Option<i64> = fx_add(r1, r2);
    let delta: Vec3 = delta?;
    let reach: i64 = reach?;
    let distance: i64 = delta.norm()?;
    let overlap: i64 = fx_sub(reach, distance)?;
    Some(Separation { delta, distance, overlap })
}

pub fn unit_normal(delta: Vec3, distance: i64) -> (r: Option<Vec3>)
    ensures
        r == unit_normal_spec(delta, distance as int),
{
    if distance == 0 {
        Some(Vec3::zero())
    } else {
        delta.times(SCALE, distance)
    }
}

pub fn effective_radius(r1: i64, r2: i64) -> (r: Option<i64>)
    ensures
        r == effective_radius_spec(r1 as int, r2 as int),
{
    let sum: i64 = fx_add(r1, r2)?;
    mul_div(r1, r2, sum)
}

pub fn poisson_term(nu: i64) -> (r: Option<i64>)
    ensures
        r == poisson_term_spec(nu as int),
{
    let sq: i64 = fx_mul(nu, nu)?;
    fx_sub(SCALE, sq)
}

pub fn effective_youngs(e1: i64, nu1: i64, e2: i64, nu2: i64) -> (r: Option<i64>)
    ensures
        r == effective_youngs_spec(e1 as int, nu1 as int, e2 as int, nu2 as int),
{
    let a1: Option<i64> = poisson_term(nu1);
    let a2: Option<i64> = poisson_term(nu2);
    let a1: i64 = a1?;
    let a2: i64 = a2?;
    let t1: Option<i64> = fx_mul(a1, e2);
    let t2: Option<i64> = fx_mul(a2, e1);
    let t1: i64 = t1?;
    let t2: i64 = t2?;
    let den: i64 = fx_add(t1, t2)?;
    mul_div(e1, e2, den)
}

pub fn reduced_mass(m1: i64, m2: i64) -> (r: Option<i64>)
    ensures
        r == reduced_mass_spec(m1 as int, m2 as int),
{
    let sum: i64 = fx_add(m1, m2)?;
    mul_div(m1, m2, sum)
}

pub fn pair_constants(a: &Body, b: &Body) -> (r: Option<PairConstants>)
    ensures
        r == pair_constants_spec(*a, *b),
{
    let eff_radius: Option<i64> = effective_radius(a.radius, b.radius);
    let eff_youngs_mod: Option<i64> = effective_youngs(
        a.youngs_mod,
        a.poisson_ratio,
        b.youngs_mod,
        b.poisson_ratio,
    );
    let reduced: Option<i64> = reduced_mass(a.mass, b.mass);
    let eff_radius: i64 = eff_radius?;
    let eff_youngs_mod: i64 = eff_youngs_mod?;
    let reduced: i64 = reduced?;
    Some(PairConstants { eff_radius, eff_youngs_mod, reduced_mass: reduced })
}

pub fn contact_stiffness(eff_youngs: i64, eff_radius: i64, overlap: i64) -> (r: Option<i64>)
    ensures
        r == contact_stiffness_spec(eff_youngs as int, eff_radius as int, overlap as int),
{
    let root: i64 = sqrt_mul(eff_radius, overlap)?;
    let half: i64 = fx_mul(eff_youngs, root)?;
    fx_add(half, half)
}

pub fn hertz_force(stiffness: i64, overlap: i64) -> (r: Option<i64>)
    ensures
        r == hertz_force_spec(stiffness as int, overlap as int),
{
    let work: i64 = fx_mul(overlap, stiffness)?;
    mul_div(work, 2, 3)
}

pub fn dissipation(beta: i64, stiffness: i64, mass: i64, approach: i64) -> (r: Option<i64>)
    ensures
        r == dissipation_spec(beta as int, stiffness as int, mass as int, approach as int),
{
    let twice: Option<i64> = fx_add(stiffness, stiffness);
    let coefficient: Option<i64> = fx_mul(DAMPING_FACTOR, beta);
    let twice: i64 = twice?;
    let coefficient: i64 = coefficient?;
    let root: i64 = sqrt_mul(twice, mass)?;
    let rate: i64 = fx_mul(coefficient, root)?;
    fx_mul(rate, approach)
}

pub fn outer(f: Vec3, d: Vec3) -> (r: Option<Mat3>)
    ensures
        r == outer_spec(f, d),
{
    let x: Option<Vec3> = f.x_times(&d);
    let y: Option<Vec3> = f.y_times(&d);
    let z: Option<Vec3> = f.z_times(&d);
    let x: Vec3 = x?;
    let y: Vec3 = y?;
    let z: Vec3 = z?;
    Some(Mat3 { x, y, z })
}

pub fn normal_force(c: &PairConstants, beta: i64, overlap: i64, approach: i64) -> (r: Option<i64>)
    ensures
        r == normal_force_spec(*c, beta as int, overlap as int, approach as int),
{
    let stiffness: i64 = contact_stiffness(c.eff_youngs_mod, c.eff_radius, overlap)?;
    let elastic: Option<i64> = hertz_force(stiffness, overlap);
    let damping: Option<i64> = dissipation(beta, stiffness, c.reduced_mass, approach);
    let elastic: i64 = elastic?;
    let damping: i64 = damping?;
    fx_sub(elastic, damping)
}

pub fn force_vector(normal: Vec3, total: i64, halved: bool) -> (r: Option<Vec3>)
    ensures
        r == force_vector_spec(normal, total as int, halved),
{
    let full: Vec3 = normal.times(total, SCALE)?;
    if halved {
        full.times(1, 2)
    } else {
        Some(full)
    }
}

pub fn pressing_force(a: &Body, b: &Body, beta: i64, sep: &Separation, halved: bool) -> (r: Option<
    PairForce,
>)
    ensures
        r == pressing_force_spec(*a, *b, beta as int, *sep, halved),
{
    let normal: Option<Vec3> = unit_normal(sep.delta, sep.distance);
    let c: Option<PairConstants> = pair_constants(a, b);
    let dv: Option<Vec3> = b.velocity.minus(&a.velocity);
    let normal: Vec3 = normal?;
    let c: PairConstants = c?;
    let dv: Vec3 = dv?;
    let approach: i64 = normal.dot(&dv)?;
    let total: i64 = normal_force(&c, beta, sep.overlap, approach)?;
    let force: Vec3 = force_vector(normal, total, halved)?;
    let tensor: Mat3 = outer(force, sep.delta)?;
    Some(PairForce { force, delta: sep.delta, tensor })
}

/// Tests one pair and computes the contact force where the spheres overlap.
pub fn pair_contact(a: &Body, b: &Body, beta: i64, halved: bool) -> (r: Option<Touch>)
    ensures
        r == pair_contact_spec(*a, *b, beta as int, halved),
{
    let sep: Separation = separation(a.position, a.radius, b.position, b.radius)?;
    if sep.overlap <= 0 {
        Some(Touch::Apart)
    } else {
        let f: PairForce = pressing_force(a, b, beta, &sep, halved)?;
        Some(Touch::Pressing(f))
    }
}

} // verus!
