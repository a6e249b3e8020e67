//! Settling an assembly that was generated with overlaps: overlapping entities
//! are pushed apart a little in every pass until no two of them overlap.
use vstd::prelude::*;
use crate::contact::{Body, Separation, separation, separation_spec, unit_normal, unit_normal_spec};
use crate::domain::{DomainData, Frame};
use crate::fixed::{NumericError, SCALE, fx_add, fx_mul, fx_mul_spec, mul_div, mul_div_spec, narrow};
use crate::forces::{plain_images, plain_images_spec};
use crate::grid::{Pair, candidate_pairs, candidate_pairs_spec, grid_indexed, pairs_indexed,
    lemma_pairs_indexed};
use crate::sphere::{ParticleData, ParticleView};
use crate::vector::Vec3;

verus! {

/// How the two entities of a candidate pair lie to each other: as they are,
/// or, where the second is a ghost, as their images across the plain periodic
/// boundary.
#[verifier::opaque]
pub open spec fn pair_separation_spec(d: Frame, p: ParticleView, q: Pair) -> Option<Separation> {
    let a = p.body_spec(q.first as int);
    let b = p.body_spec(q.second as int);
    if q.with_ghost {
        match plain_images_spec(d, a, b) {
            Some((a2, b2)) => separation_spec(a2.position, a2.radius as int, b2.position, b2.radius as int),
            None => None,
        }
    } else {
        separation_spec(a.position, a.radius as int, b.position, b.radius as int)
    }
}

/// The velocity that a pass gives to the second entity of an overlapping pair,
/// and takes from the first: `relax_rate` along the line of centres, or half
/// of it where the second entity is a ghost.
pub open spec fn nudge_spec(sep: Separation, relax_rate: int, with_ghost: bool) -> Option<Vec3> {
    let rate = if with_ghost {
        mul_div_spec(relax_rate, 1, 2)
    } else {
        narrow(relax_rate)
    };
    match (unit_normal_spec(sep.delta, sep.distance as int), rate) {
        (Some(normal), Some(k)) => normal.times_spec(k as int, SCALE as int),
        _ => None,
    }
}

/// The velocities and collision marks that a pass builds up.
pub struct Drift {
    pub velocity: Seq<Vec3>,
    pub is_collision: Seq<bool>,
}

/// The velocities and marks after one more candidate pair.
pub open spec fn relax_step_spec(d: Frame, p: ParticleView, relax_rate: int, t: Drift, q: Pair) -> Option<
    Drift,
> {
    match pair_separation_spec(d, p, q) {
        Some(sep) => if sep.overlap <= 0 {
            Some(t)
        } else {
            match nudge_spec(sep, relax_rate, q.with_ghost) {
                Some(push) => match t.velocity[q.first as int].minus_spec(push) {
                    Some(on_first) => {
                        let velocity = t.velocity.update(q.first as int, on_first);
                        match velocity[q.second as int].plus_spec(push) {
                            Some(on_second) => Some(
                                Drift {
                                    velocity: velocity.update(q.second as int, on_second),
                                    is_collision: t.is_collision.update(q.first as int, true).update(
                                        q.second as int,
                                        true,
                                    ),
                                },
                            ),
                            None => None,
                        }
                    },
                    None => None,
                },
                None => None,
            }
        },
        None => None,
    }
}

/// The velocities and marks after the first `upto` pairs of `pairs`.
pub open spec fn relax_spec(
    d: Frame,
    p: ParticleView,
    relax_rate: int,
    pairs: Seq<Pair>,
    upto: int,
    start: Drift,
) -> Option<Drift>
    decreases upto,
{
    if upto <= 0 {
        Some(start)
    } else {
        match relax_spec(d, p, relax_rate, pairs, upto - 1, start) {
            Some(t) => relax_step_spec(d, p, relax_rate, t, pairs[upto - 1]),
            None => None,
        }
    }
}

/// Once a pair has failed, the pass has failed.
pub proof fn lemma_relax_stuck(
    d: Frame,
    p: ParticleView,
    relax_rate: int,
    pairs: Seq<Pair>,
    at: int,
    upto: int,
    start: Drift,
)
    requires
        0 <= at <= upto,
        relax_spec(d, p, relax_rate, pairs, at, start).is_none(),
    ensures
        relax_spec(d, p, relax_rate, pairs, upto, start).is_none(),
    decreases upto - at,
{
    if at < upto {
        lemma_relax_stuck(d, p, relax_rate, pairs, at, upto - 1, start);
    }
}

/// The velocities and marks with which a pass begins.
pub open spec fn opening_drift(p: ParticleView) -> Drift {
    Drift { velocity: p.velocity, is_collision: p.is_collision }
}

/// The store with the velocities and marks of a pass entered.
pub open spec fn with_drift(p: ParticleView, t: Drift) -> ParticleView {
    ParticleView { velocity: t.velocity, is_collision: t.is_collision, ..p }
}

/// The pair is closer than the fraction `radius_percentage` of the sum of its
/// radii.
pub open spec fn too_close_spec(d: Frame, p: ParticleView, radius_percentage: int, q: Pair) -> Option<
    bool,
> {
    match (
        pair_separation_spec(d, p, q),
        narrow(p.radius[q.first as int] + p.radius[q.second as int]),
    ) {
        (Some(sep), Some(reach)) => match fx_mul_spec(radius_percentage, reach as int) {
            Some(limit) => Some(sep.distance < limit),
            None => None,
        },
        _ => None,
    }
}

/// Whether none of the pairs from place `at` on is too close, taking them in
/// order and stopping at the first that is, or that cannot be computed.
pub open spec fn relaxed_from(
    d: Frame,
    p: ParticleView,
    radius_percentage: int,
    pairs: Seq<Pair>,
    at: int,
) -> Option<bool>
    decreases pairs.len() - at,
{
    if at >= pairs.len() {
        Some(true)
    } else {
        match too_close_spec(d, p, radius_percentage, pairs[at]) {
            Some(true) => Some(false),
            Some(false) => relaxed_from(d, p, radius_percentage, pairs, at + 1),
            None => None,
        }
    }
}

pub fn pair_separation(d_data: &Frame, p_data: &ParticleData, q: &Pair) -> (r: Option<Separation>)
    requires
        p_data.wf(),
        q.first < p_data.count(),
        q.second < p_data.count(),
    ensures
        r == pair_separation_spec(*d_data, p_data@, *q),
{
    reveal(pair_separation_spec);
    let a: Body = p_data.body(q.first);
    let b: Body = p_data.body(q.second);
    if q.with_ghost {
        let (a2, b2) = plain_images(d_data, &a, &b)?;
        separation(a2.position, a2.radius, b2.position, b2.radius)
    } else {
        separation(a.position, a.radius, b.position, b.radius)
    }
}

pub fn nudge(sep: &Separation, relax_rate: i64, with_ghost: bool) -> (r: Option<Vec3>)
    ensures
        r == nudge_spec(*sep, relax_rate as int, with_ghost),
{
    let rate: Option<i64> = if with_ghost {
        mul_div(relax_rate, 1, 2)
    } else {
        Some(relax_rate)
    };
    let normal: Option<Vec3> = unit_normal(sep.delta, sep.distance);
    let normal: Vec3 = normal?;
    let rate: i64 = rate?;
    normal.times(rate, SCALE)
}

/// One more pair of a pass. Gives `false`, with the sums in no particular
/// state, where a quantity has no representation.
fn relax_step(
    d_data: &Frame,
    p_data: &ParticleData,
    relax_rate: i64,
    velocity: &mut Vec<Vec3>,
    marks: &mut Vec<bool>,
    q: &Pair,
) -> (done: bool)
    requires
        p_data.wf(),
        q.first < p_data.count(),
        q.second < p_data.count(),
        old(velocity)@.len() == p_data.count(),
        old(marks)@.len() == p_data.count(),
    ensures
        final(velocity)@.len() == old(velocity)@.len(),
        final(marks)@.len() == old(marks)@.len(),
        match relax_step_spec(
            *d_data,
            p_data@,
            relax_rate as int,
            Drift { velocity: old(velocity)@, is_collision: old(marks)@ },
            *q,
        ) {
            Some(t) => done && final(velocity)@ == t.velocity && final(marks)@ == t.is_collision,
            None => !done,
        },
{
    let sep: Separation = match pair_separation(d_data, p_data, q) {
        Some(s) => s,
        None => {
            return false;
        },
    };
    if sep.overlap <= 0 {
        return true;
    }
    let push: Vec3 = match nudge(&sep, relax_rate, q.with_ghost) {
        Some(v) => v,
        None => {
            return false;
        },
    };
    match velocity[q.first].minus(&push) {
        Some(v) => {
            velocity[q.first] = v;
        },
        None => {
            return false;
        },
    }
    match velocity[q.second].plus(&push) {
        Some(v) => {
            velocity[q.second] = v;
        },
        None => {
            return false;
        },
    }
    marks[q.first] = true;
    marks[q.second] = true;
    true
}

/// One pass of pushing apart: for every candidate pair whose spheres overlap,
/// the first entity loses and the second gains `relax_rate` of velocity along
/// the line of centres (half of it for a pair with a ghost), and both are
/// marked as colliding. Positions are only read.
///
/// Fails, and changes nothing, where a quantity on the way has no `i64`
/// representation.
pub fn relax(d_data: &mut DomainData, p_data: &mut ParticleData, relax_rate: i64) -> (r: Result<
    (),
    NumericError,
>)
    requires
        old(d_data).wf(),
        old(p_data).wf(),
        grid_indexed(*old(d_data), old(p_data).count()),
    ensures
        *final(d_data) == *old(d_data),
        final(p_data).wf(),
        match relax_spec(
            old(d_data).frame_spec(),
            old(p_data)@,
            relax_rate as int,
            candidate_pairs_spec(*old(d_data)),
            candidate_pairs_spec(*old(d_data)).len() as int,
            opening_drift(old(p_data)@),
        ) {
            Some(t) => r.is_ok() && final(p_data)@ == with_drift(old(p_data)@, t),
            None => r.is_err() && final(p_data)@ == old(p_data)@,
        },
{
    let pairs: Vec<Pair> = candidate_pairs(d_data);
    let frame: Frame = d_data.frame();
    proof {
        lemma_pairs_indexed(*d_data, p_data.count());
    }
    let ghost start = opening_drift(p_data@);
    let mut velocity: Vec<Vec3> = p_data.velocity.clone();
    let mut marks: Vec<bool> = p_data.is_collision.clone();
    assert(velocity@ =~= p_data.velocity@);
    assert(marks@ =~= p_data.is_collision@);
    let n: usize = pairs.len();
    let mut t: usize = 0;
    while t < n
        invariant
            p_data.wf(),
            p_data@ == old(p_data)@,
            *d_data == *old(d_data),
            frame == d_data.frame_spec(),
            start == opening_drift(old(p_data)@),
            pairs@ == candidate_pairs_spec(*old(d_data)),
            pairs_indexed(pairs@, p_data.count()),
            n == pairs@.len(),
            t <= n,
            velocity@.len() == p_data.count(),
            marks@.len() == p_data.count(),
            relax_spec(frame, p_data@, relax_rate as int, pairs@, t as int, start) == Some(
                Drift { velocity: velocity@, is_collision: marks@ },
            ),
        decreases n - t,
    {
        let q: Pair = pairs[t];
        let done: bool = relax_step(&frame, p_data, relax_rate, &mut velocity, &mut marks, &q);
        if !done {
            proof {
                assert(relax_spec(frame, p_data@, relax_rate as int, pairs@, t + 1, start).is_none());
                lemma_relax_stuck(frame, p_data@, relax_rate as int, pairs@, t + 1, n as int, start);
            }
            return Err(NumericError::OutOfRange);
        }
        t += 1;
    }
    p_data.velocity = velocity;
    p_data.is_collision = marks;
    Ok(())
}

pub fn too_close(d_data: &Frame, p_data: &ParticleData, radius_percentage: i64, q: &Pair) -> (r:
    Option<bool>)
    requires
        p_data.wf(),
        q.first < p_data.count(),
        q.second < p_data.count(),
    ensures
        r == too_close_spec(*d_data, p_data@, radius_percentage as int, *q),
{
    let sep: Option<Separation> = pair_separation(d_data, p_data, q);
    let reach: Option<i64> = fx_add(p_data.radius[q.first], p_data.radius[q.second]);
    let sep: Separation = sep?;
    let reach: i64 = reach?;
    let limit: i64 = fx_mul(radius_percentage, reach)?;
    Some(sep.distance < limit)
}

/// Whether the assembly has settled: no candidate pair is closer than the
/// fraction `radius_percentage` of the sum of its radii. The pairs are taken
/// in order, and the first that is too close decides.
///
/// Fails where a quantity on the way has no `i64` representation.
pub fn is_relaxed(d_data: &DomainData, p_data: &ParticleData, radius_percentage: i64) -> (r: Result<
    bool,
    NumericError,
>)
    requires
        d_data.wf(),
        p_data.wf(),
        grid_indexed(*d_data, p_data.count()),
    ensures
        match relaxed_from(d_data.frame_spec(), p_data@, radius_percentage as int, candidate_pairs_spec(*d_data), 0) {
            Some(b) => r == Ok::<bool, NumericError>(b),
            None => r.is_err(),
        },
{
    let pairs: Vec<Pair> = candidate_pairs(d_data);
    let frame: Frame = d_data.frame();
    proof {
        lemma_pairs_indexed(*d_data, p_data.count());
    }
    let n: usize = pairs.len();
    let mut t: usize = 0;
    while t < n
        invariant
            p_data.wf(),
            pairs@ == candidate_pairs_spec(*d_data),
            pairs_indexed(pairs@, p_data.count()),
            n == pairs@.len(),
            t <= n,
            frame == d_data.frame_spec(),
            relaxed_from(frame, p_data@, radius_percentage as int, pairs@, 0) == relaxed_from(
                frame,
                p_data@,
                radius_percentage as int,
                pairs@,
                t as int,
            ),
        decreases n - t,
    {
        let q: Pair = pairs[t];
        match too_close(&frame, p_data, radius_percentage, &q) {
            None => {
                return Err(NumericError::OutOfRange);
            },
            Some(true) => {
                return Ok(false);
            },
            Some(false) => {},
        }
        t += 1;
    }
    Ok(true)
}

} // verus!
