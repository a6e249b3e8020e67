//! Turning a rigid body through a step of time: the rotation quaternion is
//! carried on by Richardson's method, a whole step set against two half steps.
use vstd::prelude::*;
use crate::dynamics::{angmom_to_omega, angmom_to_omega_spec};
use crate::fixed::{SCALE, fits, fx_add, fx_mul, fx_mul_spec, isqrt, magnitude, mul_div, mul_div_spec,
    narrow, signed_narrow, trunc_div, wide_isqrt, wide_magnitude};
use crate::rigid_body::{Axes, axes_of, axes_spec};
use crate::vector::{Quat, Vec3, WideSum};

verus! {

/// The greatest magnitude of a component of a quaternion that can be taken to
/// unit length: the sum of the four squares must fit the arithmetic.
pub const WIDEST: i64 = 0x4000_0000_0000_0000;

/// The sum of the squares of the four components.
pub open spec fn square_sum(q: Quat) -> int {
    q.w * q.w + q.x * q.x + q.y * q.y + q.z * q.z
}

/// Every component is within `WIDEST`.
pub open spec fn bounded(q: Quat) -> bool {
    &&& magnitude(q.w as int) <= WIDEST
    &&& magnitude(q.x as int) <= WIDEST
    &&& magnitude(q.y as int) <= WIDEST
    &&& magnitude(q.z as int) <= WIDEST
}

/// The length of a quaternion, rounded down.
pub open spec fn length_spec(q: Quat) -> Option<i64> {
    if bounded(q) {
        narrow(isqrt(square_sum(q)))
    } else {
        None
    }
}

/// The quaternion taken to unit length: every component times `SCALE` over
/// the length. There is none of a quaternion of no length.
pub open spec fn normalized_spec(q: Quat) -> Option<Quat> {
    match length_spec(q) {
        Some(n) => match (
            mul_div_spec(q.w as int, SCALE as int, n as int),
            mul_div_spec(q.x as int, SCALE as int, n as int),
            mul_div_spec(q.y as int, SCALE as int, n as int),
            mul_div_spec(q.z as int, SCALE as int, n as int),
        ) {
            (Some(w), Some(x), Some(y), Some(z)) => Some(Quat { w, x, y, z }),
            _ => None,
        },
        None => None,
    }
}

/// The product of the angular velocity `w`, read as a quaternion without a
/// real part, and the rotation `q`: the rate of change of `q`, doubled.
pub open spec fn vecquat_spec(w: Vec3, q: Quat) -> Option<Quat> {
    let s = SCALE as int;
    let c0 = trunc_div(-(w.x * q.x) - w.y * q.y - w.z * q.z, s);
    let c1 = trunc_div(q.w * w.x + w.y * q.z - w.z * q.y, s);
    let c2 = trunc_div(q.w * w.y + w.z * q.x - w.x * q.z, s);
    let c3 = trunc_div(q.w * w.z + w.x * q.y - w.y * q.x, s);
    if fits(c0) && fits(c1) && fits(c2) && fits(c3) {
        Some(Quat { w: c0 as i64, x: c1 as i64, y: c2 as i64, z: c3 as i64 })
    } else {
        None
    }
}

/// `q + dtq * rate`, taken to unit length.
pub open spec fn stepped_spec(q: Quat, rate: Quat, dtq: int) -> Option<Quat> {
    match (
        fx_mul_spec(dtq, rate.w as int),
        fx_mul_spec(dtq, rate.x as int),
        fx_mul_spec(dtq, rate.y as int),
        fx_mul_spec(dtq, rate.z as int),
    ) {
        (Some(w), Some(x), Some(y), Some(z)) => if fits(q.w + w) && fits(q.x + x) && fits(q.y + y) && fits(
            q.z + z,
        ) {
            normalized_spec(
                Quat { w: (q.w + w) as i64, x: (q.x + x) as i64, y: (q.y + y) as i64, z: (q.z + z) as i64 },
            )
        } else {
            None
        },
        _ => None,
    }
}

/// `2 * half - full`, taken to unit length: the two estimates of a step set
/// against each other.
pub open spec fn extrapolated_spec(half: Quat, full: Quat) -> Option<Quat> {
    if fits(2 * half.w - full.w) && fits(2 * half.x - full.x) && fits(2 * half.y - full.y) && fits(
        2 * half.z - full.z,
    ) {
        normalized_spec(
            Quat {
                w: (2 * half.w - full.w) as i64,
                x: (2 * half.x - full.x) as i64,
                y: (2 * half.y - full.y) as i64,
                z: (2 * half.z - full.z) as i64,
            },
        )
    } else {
        None
    }
}

/// The rotation `q` of a body with the angular momentum `momentum`, the
/// angular velocity `omega` and the principal moments `inertia`, after the
/// time `2 * dtq`. One estimate takes the step at once. The other takes half
/// of it, finds the angular velocity that belongs to the momentum at the
/// rotation reached, and takes the second half with that. The result is twice
/// the second estimate less the first.
pub open spec fn richardson_spec(q: Quat, momentum: Vec3, omega: Vec3, inertia: Vec3, dtq: int) -> Option<Quat> {
    match (vecquat_spec(omega, q), mul_div_spec(dtq, 1, 2)) {
        (Some(rate), Some(half_dtq)) => match (
            stepped_spec(q, rate, dtq),
            stepped_spec(q, rate, half_dtq as int),
        ) {
            (Some(full), Some(half)) => match axes_spec(half) {
                Some(axes) => match angmom_to_omega_spec(momentum, axes, inertia) {
                    Some(omega_half) => match vecquat_spec(omega_half, half) {
                        Some(rate_half) => match stepped_spec(half, rate_half, half_dtq as int) {
                            Some(second) => extrapolated_spec(second, full),
                            None => None,
                        },
                        None => None,
                    },
                    None => None,
                },
                None => None,
            },
            _ => None,
        },
        _ => None,
    }
}

fn within(c: i64) -> (r: bool)
    ensures
        r == (magnitude(c as int) <= WIDEST),
{
    c >= -0x4000_0000_0000_0000 && c <= 0x4000_0000_0000_0000
}

/// The length of a quaternion.
pub fn length(q: &Quat) -> (r: Option<i64>)
    ensures
        r == length_spec(*q),
{
    if !(within(q.w) && within(q.x) && within(q.y) && within(q.z)) {
        return None;
    }
    let w: u128 = wide_magnitude(q.w);
    let x: u128 = wide_magnitude(q.x);
    let y: u128 = wide_magnitude(q.y);
    let z: u128 = wide_magnitude(q.z);
    proof {
        lemma_square_bound(w as int);
        lemma_square_bound(x as int);
        lemma_square_bound(y as int);
        lemma_square_bound(z as int);
        assert(w * w == q.w * q.w) by (nonlinear_arith)
            requires
                w == magnitude(q.w as int),
        ;
        assert(x * x == q.x * q.x) by (nonlinear_arith)
            requires
                x == magnitude(q.x as int),
        ;
        assert(y * y == q.y * q.y) by (nonlinear_arith)
            requires
                y == magnitude(q.y as int),
        ;
        assert(z * z == q.z * q.z) by (nonlinear_arith)
            requires
                z == magnitude(q.z as int),
        ;
    }
    let sum: u128 = w * w + x * x + y * y + z * z;
    let root: u128 = wide_isqrt(sum);
    signed_narrow(root, false)
}

proof fn lemma_square_bound(m: int)
    requires
        0 <= m <= WIDEST,
    ensures
        0 <= m * m <= 0x1000_0000_0000_0000_0000_0000_0000_0000,
{
    assert(0 <= m * m <= 0x1000_0000_0000_0000_0000_0000_0000_0000) by (nonlinear_arith)
        requires
            0 <= m <= 0x4000_0000_0000_0000,
    ;
}

/// The quaternion taken to unit length.
pub fn normalized(q: &Quat) -> (r: Option<Quat>)
    ensures
        r == normalized_spec(*q),
{
    let n: i64 = length(q)?;
    let w: Option<i64> = mul_div(q.w, SCALE, n);
    let x: Option<i64> = mul_div(q.x, SCALE, n);
    let y: Option<i64> = mul_div(q.y, SCALE, n);
    let z: Option<i64> = mul_div(q.z, SCALE, n);
    let w: i64 = w?;
    let x: i64 = x?;
    let y: i64 = y?;
    let z: i64 = z?;
    Some(Quat { w, x, y, z })
}

pub fn vecquat(w: &Vec3, q: &Quat) -> (r: Option<Quat>)
    ensures
        r == vecquat_spec(*w, *q),
{
    let c0: Option<i64> = WideSum::zero().with_product(w.x, q.x, true).with_product(w.y, q.y, true).with_product(
        w.z,
        q.z,
        true,
    ).div(SCALE);
    let c1: Option<i64> = WideSum::zero().with_product(q.w, w.x, false).with_product(
        w.y,
        q.z,
        false,
    ).with_product(w.z, q.y, true).div(SCALE);
    let c2: Option<i64> = WideSum::zero().with_product(q.w, w.y, false).with_product(
        w.z,
        q.x,
        false,
    ).with_product(w.x, q.z, true).div(SCALE);
    let c3: Option<i64> = WideSum::zero().with_product(q.w, w.z, false).with_product(
        w.x,
        q.y,
        false,
    ).with_product(w.y, q.x, true).div(SCALE);
    let c0: i64 = c0?;
    let c1: i64 = c1?;
    let c2: i64 = c2?;
    let c3: i64 = c3?;
    Some(Quat { w: c0, x: c1, y: c2, z: c3 })
}

pub fn stepped(q: &Quat, rate: &Quat, dtq: i64) -> (r: Option<Quat>)
    ensures
        r == stepped_spec(*q, *rate, dtq as int),
{
    let w: Option<i64> = fx_mul(dtq, rate.w);
    let x: Option<i64> = fx_mul(dtq, rate.x);
    let y: Option<i64> = fx_mul(dtq, rate.y);
    let z: Option<i64> = fx_mul(dtq, rate.z);
    let w: i64 = w?;
    let x: i64 = x?;
    let y: i64 = y?;
    let z: i64 = z?;
    let sw: Option<i64> = fx_add(q.w, w);
    let sx: Option<i64> = fx_add(q.x, x);
    let sy: Option<i64> = fx_add(q.y, y);
    let sz: Option<i64> = fx_add(q.z, z);
    let sw: i64 = sw?;
    let sx: i64 = sx?;
    let sy: i64 = sy?;
    let sz: i64 = sz?;
    normalized(&Quat { w: sw, x: sx, y: sy, z: sz })
}

fn twice_less(a: i64, b: i64) -> (r: Option<i64>)
    ensures
        r == narrow(2 * a - b),
{
    crate::fixed::to_i64(2 * (a as i128) - (b as i128))
}

pub fn extrapolated(half: &Quat, full: &Quat) -> (r: Option<Quat>)
    ensures
        r == extrapolated_spec(*half, *full),
{
    let w: Option<i64> = twice_less(half.w, full.w);
    let x: Option<i64> = twice_less(half.x, full.x);
    let y: Option<i64> = twice_less(half.y, full.y);
    let z: Option<i64> = twice_less(half.z, full.z);
    let w: i64 = w?;
    let x: i64 = x?;
    let y: i64 = y?;
    let z: i64 = z?;
    normalized(&Quat { w, x, y, z })
}

/// Carries the rotation of a body on by the time `2 * dtq`.
pub fn richardson(q: &Quat, momentum: &Vec3, omega: &Vec3, inertia: &Vec3, dtq: i64) -> (r: Option<Quat>)
    ensures
        r == richardson_spec(*q, *momentum, *omega, *inertia, dtq as int),
{
    let rate: Option<Quat> = vecquat(omega, q);
    let half_dtq: Option<i64> = mul_div(dtq, 1, 2);
    let rate: Quat = rate?;
    let half_dtq: i64 = half_dtq?;
    let full: Option<Quat> = stepped(q, &rate, dtq);
    let half: Option<Quat> = stepped(q, &rate, half_dtq);
    let full: Quat = full?;
    let half: Quat = half?;
    let axes: Axes = axes_of(&half)?;
    let omega_half: Vec3 = angmom_to_omega(momentum, &axes, inertia)?;
    let rate_half: Quat = vecquat(&omega_half, &half)?;
    let second: Quat = stepped(&half, &rate_half, half_dtq)?;
    extrapolated(&second, &full)
}

} // verus!
