//! Tangential contact: the force across the line of centres, which friction
//! limits, and the torque that it puts on the entities.
use vstd::prelude::*;
use crate::fixed::{SCALE, fits, fx_mul, fx_mul_spec, fx_sub, isqrt, lemma_isqrt_exists, magnitude,
    narrow, sqrt_mul, sqrt_mul_spec, to_i64, wide_isqrt};
use crate::vector::{Vec3, WideSum, dot_raw};

verus! {

/// Where a contact stands in its history of tangential loading.
#[derive(Clone, Copy, Debug, PartialEq, Eq, Structural)]
pub enum LoadingMode {
    Loading,
    Unloading,
    Reloading,
}

/// The sign with which a change of the normal force enters the tangential
/// force: plus while loading and reloading, minus while unloading.
pub open spec fn mode_sign_spec(mode: LoadingMode) -> int {
    match mode {
        LoadingMode::Loading => 1,
        LoadingMode::Unloading => -1,
        LoadingMode::Reloading => 1,
    }
}

/// The radius of the contact area of two spheres with the effective radius
/// `eff_radius` that overlap by `overlap`: `sqrt(eff_radius * overlap)`.
pub open spec fn contact_radius_spec(eff_radius: int, overlap: int) -> Option<i64> {
    sqrt_mul_spec(eff_radius, overlap)
}

/// The change of the tangential force of a contact in one step: `8 * g *
/// a * theta * slip`, with `g` the effective shear modulus, `a` the contact
/// radius, `theta` the correction factor of the loading mode and `slip` the
/// change of the tangential displacement, plus or minus, by the mode,
/// `friction * normal_change * (1 - theta)`.
pub open spec fn tangential_change_spec(
    shear_modulus: int,
    contact_radius: int,
    theta: int,
    slip: int,
    mode: LoadingMode,
    friction: int,
    normal_change: int,
) -> Option<i64> {
    match (
        fx_mul_spec(shear_modulus, contact_radius),
        fx_mul_spec(theta, slip),
        fx_mul_spec(friction, normal_change),
        narrow(SCALE - theta),
    ) {
        (Some(stiff), Some(turned), Some(drag), Some(rest)) => match (
            fx_mul_spec(stiff as int, turned as int),
            fx_mul_spec(drag as int, rest as int),
        ) {
            (Some(elastic), Some(sliding)) => narrow(8 * elastic + mode_sign_spec(mode) * sliding),
            _ => None,
        },
        _ => None,
    }
}

/// The length of `t`, rounded up.
pub open spec fn length_up_spec(t: Vec3) -> int {
    let n = isqrt(dot_raw(t, t));
    if n * n == dot_raw(t, t) {
        n
    } else {
        n + 1
    }
}

/// The most tangential force that friction carries under the normal force
/// `normal`: `friction * |normal|`.
pub open spec fn coulomb_limit_spec(friction: int, normal: int) -> Option<i64> {
    match narrow(magnitude(normal)) {
        Some(pressing) => fx_mul_spec(friction, pressing as int),
        None => None,
    }
}

/// The tangential force `t` as friction lets it be: itself where it is within
/// `limit`, else cut down to `limit` along its own direction. The cut
/// divides by the length rounded up, so that the result is within the limit.
pub open spec fn coulomb_clamp_spec(t: Vec3, limit: int) -> Option<Vec3> {
    if limit < 0 || !fits(length_up_spec(t)) {
        None
    } else if length_up_spec(t) <= limit {
        Some(t)
    } else {
        t.times_spec(limit, length_up_spec(t))
    }
}

/// The torque of the force `force` acting at `lever` from the centre: `lever x
/// force`.
pub open spec fn contact_torque_spec(lever: Vec3, force: Vec3) -> Option<Vec3> {
    lever.cross_spec(force)
}

pub fn contact_radius(eff_radius: i64, overlap: i64) -> (a: Option<i64>)
    ensures
        a == contact_radius_spec(eff_radius as int, overlap as int),
{
    sqrt_mul(eff_radius, overlap)
}

pub fn tangential_change(
    shear_modulus: i64,
    contact_radius: i64,
    theta: i64,
    slip: i64,
    mode: LoadingMode,
    friction: i64,
    normal_change: i64,
) -> (r: Option<i64>)
    ensures
        r == tangential_change_spec(
            shear_modulus as int,
            contact_radius as int,
            theta as int,
            slip as int,
            mode,
            friction as int,
            normal_change as int,
        ),
{
    let stiff: Option<i64> = fx_mul(shear_modulus, contact_radius);
    let turned: Option<i64> = fx_mul(theta, slip);
    let drag: Option<i64> = fx_mul(friction, normal_change);
    let rest: Option<i64> = fx_sub(SCALE, theta);
    let stiff: i64 = stiff?;
    let turned: i64 = turned?;
    let drag: i64 = drag?;
    let rest: i64 = rest?;
    let elastic: Option<i64> = fx_mul(stiff, turned);
    let sliding: Option<i64> = fx_mul(drag, rest);
    let elastic: i64 = elastic?;
    let sliding: i64 = sliding?;
    let signed: i128 = match mode {
        LoadingMode::Unloading => -(sliding as i128),
        _ => sliding as i128,
    };
    to_i64(8 * (elastic as i128) + signed)
}

/// The length of `t`, rounded up; `None` where it has no `i64`
/// representation.
pub fn length_up(t: &Vec3) -> (r: Option<i64>)
    ensures
        r == narrow(length_up_spec(*t)),
{
    let s: WideSum = WideSum::zero().with_product(t.x, t.x, false).with_product(t.y, t.y, false).with_product(
        t.z,
        t.z,
        false,
    );
    proof {
        assert(t.x * t.x >= 0) by (nonlinear_arith);
        assert(t.y * t.y >= 0) by (nonlinear_arith);
        assert(t.z * t.z >= 0) by (nonlinear_arith);
        lemma_isqrt_exists(dot_raw(*t, *t));
    }
    let root: u128 = wide_isqrt(s.pos);
    assert(root * root <= s.pos) by (nonlinear_arith)
        requires
            root * root <= s.pos,
    ;
    let up: u128 = if root * root == s.pos {
        root
    } else {
        root + 1
    };
    crate::fixed::signed_narrow(up, false)
}

pub fn coulomb_limit(friction: i64, normal: i64) -> (r: Option<i64>)
    ensures
        r == coulomb_limit_spec(friction as int, normal as int),
{
    let pressing: i64 = if normal < 0 {
        fx_sub(0, normal)?
    } else {
        normal
    };
    fx_mul(friction, pressing)
}

pub fn coulomb_clamp(t: &Vec3, limit: i64) -> (r: Option<Vec3>)
    ensures
        r == coulomb_clamp_spec(*t, limit as int),
{
    if limit < 0 {
        return None;
    }
    let length: i64 = length_up(t)?;
    if length <= limit {
        Some(*t)
    } else {
        t.times(limit, length)
    }
}

pub fn contact_torque(lever: &Vec3, force: &Vec3) -> (r: Option<Vec3>)
    ensures
        r == contact_torque_spec(*lever, *force),
{
    lever.cross(force)
}

} // verus!
