//! Time integration of the entities: velocity-Verlet in two half steps, with
//! the forces evaluated between them.
use vstd::prelude::*;
use crate::fixed::{NumericError, SCALE, mul_div, mul_div_spec};
use crate::sphere::{ParticleData, ParticleView};
use crate::vector::Vec3;

verus! {

/// The change of one velocity component under the force `f` on the mass `m`
/// for the time `dt * part / whole`: `f * dt / m`, rounded once, then the
/// fraction.
pub open spec fn kick_component_spec(f: int, m: int, dt: int, part: int, whole: int) -> Option<i64> {
    match mul_div_spec(f, dt, m) {
        Some(full) => mul_div_spec(full as int, part, whole),
        None => None,
    }
}

/// The velocity `v` after the force `f` has acted on the mass `m` for the
/// time `dt * part / whole`.
pub open spec fn kick_spec(v: Vec3, f: Vec3, m: int, dt: int, part: int, whole: int) -> Option<Vec3> {
    match (
        kick_component_spec(f.x as int, m, dt, part, whole),
        kick_component_spec(f.y as int, m, dt, part, whole),
        kick_component_spec(f.z as int, m, dt, part, whole),
    ) {
        (Some(x), Some(y), Some(z)) => v.plus_spec(Vec3 { x, y, z }),
        _ => None,
    }
}

/// The position `pos` after moving with the velocity `v` for the time `dt`.
pub open spec fn drift_spec(pos: Vec3, v: Vec3, dt: int) -> Option<Vec3> {
    match v.times_spec(dt, SCALE as int) {
        Some(step) => pos.plus_spec(step),
        None => None,
    }
}

/// Velocity and position of one entity after a kick for `dt * part / whole`
/// and, where `moving` is set, a drift for `dt` with the new velocity.
pub open spec fn advance_spec(
    pos: Vec3,
    v: Vec3,
    f: Vec3,
    m: int,
    dt: int,
    part: int,
    whole: int,
    moving: bool,
) -> Option<(Vec3, Vec3)> {
    match kick_spec(v, f, m, dt, part, whole) {
        Some(kicked) => if moving {
            match drift_spec(pos, kicked, dt) {
                Some(moved) => Some((moved, kicked)),
                None => None,
            }
        } else {
            Some((pos, kicked))
        },
        None => None,
    }
}

/// Positions and velocities of the first `upto` entities after `advance_spec`.
pub open spec fn advance_columns_spec(
    p: ParticleView,
    dt: int,
    part: int,
    whole: int,
    moving: bool,
    upto: int,
) -> Option<(Seq<Vec3>, Seq<Vec3>)>
    decreases upto,
{
    if upto <= 0 {
        Some((Seq::empty(), Seq::empty()))
    } else {
        match (
            advance_columns_spec(p, dt, part, whole, moving, upto - 1),
            advance_spec(
                p.position[upto - 1],
                p.velocity[upto - 1],
                p.force[upto - 1],
                p.mass[upto - 1] as int,
                dt,
                part,
                whole,
                moving,
            ),
        ) {
            (Some((ps, vs)), Some((pos, v))) => Some((ps.push(pos), vs.push(v))),
            _ => None,
        }
    }
}

/// Once an entity has failed, the step has failed.
pub proof fn lemma_advance_stuck(
    p: ParticleView,
    dt: int,
    part: int,
    whole: int,
    moving: bool,
    at: int,
    upto: int,
)
    requires
        0 <= at <= upto,
        advance_columns_spec(p, dt, part, whole, moving, at).is_none(),
    ensures
        advance_columns_spec(p, dt, part, whole, moving, upto).is_none(),
    decreases upto - at,
{
    if at < upto {
        lemma_advance_stuck(p, dt, part, whole, moving, at, upto - 1);
    }
}

pub fn kick_component(f: i64, m: i64, dt: i64, part: i64, whole: i64) -> (r: Option<i64>)
    ensures
        r == kick_component_spec(f as int, m as int, dt as int, part as int, whole as int),
{
    let full: i64 = mul_div(f, dt, m)?;
    mul_div(full, part, whole)
}

pub fn kick(v: &Vec3, f: &Vec3, m: i64, dt: i64, part: i64, whole: i64) -> (r: Option<Vec3>)
    ensures
        r == kick_spec(*v, *f, m as int, dt as int, part as int, whole as int),
{
    let x: Option<i64> = kick_component(f.x, m, dt, part, whole);
    let y: Option<i64> = kick_component(f.y, m, dt, part, whole);
    let z: Option<i64> = kick_component(f.z, m, dt, part, whole);
    let x: i64 = x?;
    let y: i64 = y?;
    let z: i64 = z?;
    v.plus(&Vec3 { x, y, z })
}

pub fn drift(pos: &Vec3, v: &Vec3, dt: i64) -> (r: Option<Vec3>)
    ensures
        r == drift_spec(*pos, *v, dt as int),
{
    let step: Vec3 = v.times(dt, SCALE)?;
    pos.plus(&step)
}

pub fn advance(pos: &Vec3, v: &Vec3, f: &Vec3, m: i64, dt: i64, part: i64, whole: i64, moving: bool) -> (r:
    Option<(Vec3, Vec3)>)
    ensures
        r == advance_spec(*pos, *v, *f, m as int, dt as int, part as int, whole as int, moving),
{
    let kicked: Vec3 = kick(v, f, m, dt, part, whole)?;
    if moving {
        let moved: Vec3 = drift(pos, &kicked, dt)?;
        Some((moved, kicked))
    } else {
        Some((*pos, kicked))
    }
}

/// Advances every entity by a kick and, where `moving` is set, a drift.
fn advance_all(p_data: &mut ParticleData, dt: i64, part: i64, whole: i64, moving: bool) -> (r: Result<
    (),
    NumericError,
>)
    requires
        old(p_data).wf(),
    ensures
        final(p_data).wf(),
        !moving ==> final(p_data).position@ == old(p_data).position@,
        match advance_columns_spec(
            old(p_data)@,
            dt as int,
            part as int,
            whole as int,
            moving,
            old(p_data).count(),
        ) {
            Some((ps, vs)) => r.is_ok() && final(p_data)@ == (ParticleView {
                position: ps,
                velocity: vs,
                ..old(p_data)@
            }),
            None => r.is_err() && final(p_data)@ == old(p_data)@,
        },
{
    let n: usize = p_data.radius.len();
    let mut positions: Vec<Vec3> = Vec::new();
    let mut velocities: Vec<Vec3> = Vec::new();
    let mut i: usize = 0;
    assert(positions@ =~= p_data.position@.take(0));
    while i < n
        invariant
            p_data.wf(),
            p_data@ == old(p_data)@,
            n == p_data.count(),
            i <= n,
            positions@.len() == i,
            velocities@.len() == i,
            !moving ==> positions@ == p_data.position@.take(i as int),
            advance_columns_spec(p_data@, dt as int, part as int, whole as int, moving, i as int) == Some(
                (positions@, velocities@),
            ),
        decreases n - i,
    {
        match advance(
            &p_data.position[i],
            &p_data.velocity[i],
            &p_data.force[i],
            p_data.mass[i],
            dt,
            part,
            whole,
            moving,
        ) {
            Some((pos, v)) => {
                positions.push(pos);
                velocities.push(v);
                assert(!moving ==> positions@ =~= p_data.position@.take(i + 1));
            },
            None => {
                proof {
                    assert(advance_columns_spec(
                        p_data@,
                        dt as int,
                        part as int,
                        whole as int,
                        moving,
                        i + 1,
                    ).is_none());
                    lemma_advance_stuck(
                        p_data@,
                        dt as int,
                        part as int,
                        whole as int,
                        moving,
                        i + 1,
                        n as int,
                    );
                }
                return Err(NumericError::OutOfRange);
            },
        }
        i += 1;
    }
    assert(!moving ==> positions@ =~= p_data.position@);
    p_data.position = positions;
    p_data.velocity = velocities;
    Ok(())
}

/// A plain Euler step: every velocity gains `dt * force / mass`, then every
/// position moves for `dt` with the new velocity.
///
/// Fails, and changes nothing, where a quantity has no `i64` representation
/// or a mass is zero.
pub fn _euler_integration(p_data: &mut ParticleData, dt: i64) -> (r: Result<(), NumericError>)
    requires
        old(p_data).wf(),
    ensures
        final(p_data).wf(),
        match advance_columns_spec(old(p_data)@, dt as int, 1, 1, true, old(p_data).count()) {
            Some((ps, vs)) => r.is_ok() && final(p_data)@ == (ParticleView {
                position: ps,
                velocity: vs,
                ..old(p_data)@
            }),
            None => r.is_err() && final(p_data)@ == old(p_data)@,
        },
{
    advance_all(p_data, dt, 1, 1, true)
}

/// The first half step: every velocity gains `dt * force / mass / 2`, then
/// every position moves for `dt` with the new velocity.
///
/// Fails, and changes nothing, where a quantity has no `i64` representation
/// or a mass is zero.
pub fn inital_integrate(p_data: &mut ParticleData, dt: i64) -> (r: Result<(), NumericError>)
    requires
        old(p_data).wf(),
    ensures
        final(p_data).wf(),
        match advance_columns_spec(old(p_data)@, dt as int, 1, 2, true, old(p_data).count()) {
            Some((ps, vs)) => r.is_ok() && final(p_data)@ == (ParticleView {
                position: ps,
                velocity: vs,
                ..old(p_data)@
            }),
            None => r.is_err() && final(p_data)@ == old(p_data)@,
        },
{
    advance_all(p_data, dt, 1, 2, true)
}

/// The second half step: every velocity gains `dt * force / mass / 2` with
/// the forces of the new positions. Positions stay.
///
/// Fails, and changes nothing, where a quantity has no `i64` representation
/// or a mass is zero.
pub fn final_integrate(p_data: &mut ParticleData, dt: i64) -> (r: Result<(), NumericError>)
    requires
        old(p_data).wf(),
    ensures
        final(p_data).wf(),
        final(p_data).position@ == old(p_data).position@,
        match advance_columns_spec(old(p_data)@, dt as int, 1, 2, false, old(p_data).count()) {
            Some((ps, vs)) => r.is_ok() && final(p_data)@ == (ParticleView {
                position: ps,
                velocity: vs,
                ..old(p_data)@
            }),
            None => r.is_err() && final(p_data)@ == old(p_data)@,
        },
{
    advance_all(p_data, dt, 1, 2, false)
}

} // verus!
