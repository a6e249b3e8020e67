//! Settling: passes of damped drift and pushing apart, until no two spheres
//! overlap.
use vstd::prelude::*;
use crate::boundary::{relax_boundaries_box, wrap_position_spec};
use crate::domain::{DomainData, Frame};
use crate::fixed::{NumericError, SCALE, fx_add, fx_div, fx_div_spec, fx_mul, fx_mul_spec, fx_sub,
    mul_div, mul_div_spec, narrow};
use crate::grid::{grid_filled, lemma_filled_is_indexed, lemma_neighbour_pairs, neighbour_pairs, update};
use crate::relaxation::{is_relaxed, opening_drift, relax, relax_spec, relaxed_from, with_drift};
use crate::sphere::{ParticleData, ParticleView, sphere_volume, sphere_volume_spec};
use crate::vector::Vec3;

verus! {

/// The constants of the settling procedure, as fixed-point numbers.
#[derive(Clone, Copy, Debug, PartialEq, Eq, Structural)]
pub struct RelaxSettings {
    /// The part of its velocity by which an entity moves in a pass.
    pub drift: i64,
    /// The part of its velocity that an entity keeps from pass to pass.
    pub decay: i64,
    /// The velocity that two overlapping entities gain away from each other.
    pub relax_rate: i64,
    /// The part of the sum of their radii that two centres must be apart for
    /// the pair to count as settled.
    pub radius_percentage: i64,
}

impl RelaxSettings {
    /// The settings for single spheres: half the velocity as drift, half of it
    /// kept, a push of 0.02, and no overlap left at all.
    pub fn standard() -> (s: RelaxSettings)
        ensures
            s == (RelaxSettings {
                drift: 500_000,
                decay: 500_000,
                relax_rate: 20_000,
                radius_percentage: SCALE,
            }),
    {
        RelaxSettings { drift: 500_000, decay: 500_000, relax_rate: 20_000, radius_percentage: SCALE }
    }
}

/// Position and velocity of one entity after the damped drift of a pass.
pub open spec fn damped_spec(pos: Vec3, vel: Vec3, s: RelaxSettings) -> Option<(Vec3, Vec3)> {
    match (vel.times_spec(s.drift as int, SCALE as int), vel.times_spec(s.decay as int, SCALE as int)) {
        (Some(step), Some(kept)) => match pos.plus_spec(step) {
            Some(moved) => Some((moved, kept)),
            None => None,
        },
        _ => None,
    }
}

/// Positions and velocities of the first `upto` entities after the damped
/// drift.
pub open spec fn damped_columns_spec(pos: Seq<Vec3>, vel: Seq<Vec3>, s: RelaxSettings, upto: int) -> Option<
    (Seq<Vec3>, Seq<Vec3>),
>
    decreases upto,
{
    if upto <= 0 {
        Some((Seq::empty(), Seq::empty()))
    } else {
        match (damped_columns_spec(pos, vel, s, upto - 1), damped_spec(pos[upto - 1], vel[upto - 1], s)) {
            (Some((ps, vs)), Some((p, v))) => Some((ps.push(p), vs.push(v))),
            _ => None,
        }
    }
}

proof fn lemma_damped_stuck(pos: Seq<Vec3>, vel: Seq<Vec3>, s: RelaxSettings, at: int, upto: int)
    requires
        0 <= at <= upto,
        damped_columns_spec(pos, vel, s, at).is_none(),
    ensures
        damped_columns_spec(pos, vel, s, upto).is_none(),
    decreases upto - at,
{
    if at < upto {
        lemma_damped_stuck(pos, vel, s, at, upto - 1);
    }
}

/// The store after the damped drift: every entity moved and slowed, and no
/// entity marked as colliding.
pub open spec fn drifted_spec(p: ParticleView, s: RelaxSettings) -> Option<ParticleView> {
    match damped_columns_spec(p.position, p.velocity, s, p.count()) {
        Some((ps, vs)) => Some(
            ParticleView {
                position: ps,
                velocity: vs,
                is_collision: Seq::new(p.is_collision.len(), |i: int| false),
                ..p
            },
        ),
        None => None,
    }
}

/// The store with every position wrapped into the domain.
pub open spec fn wrapped_spec(p: ParticleView, domain: Vec3) -> ParticleView {
    ParticleView {
        position: Seq::new(p.position.len(), |i: int| wrap_position_spec(p.position[i], domain)),
        ..p
    }
}

/// One pass of settling, and whether the assembly has settled with it. The
/// entities drift and slow down; the grid is filled from where they are
/// then; they are wrapped into the domain; every overlapping candidate pair
/// is pushed apart; and the pairs are tested against the threshold.
pub open spec fn relax_pass_spec(f: Frame, p: ParticleView, s: RelaxSettings) -> Option<(ParticleView, bool)> {
    match drifted_spec(p, s) {
        Some(drifted) => {
            let pairs = neighbour_pairs(f, drifted);
            let wrapped = wrapped_spec(drifted, f.domain);
            match relax_spec(
                f,
                wrapped,
                s.relax_rate as int,
                pairs,
                pairs.len() as int,
                opening_drift(wrapped),
            ) {
                Some(t) => {
                    let pushed = with_drift(wrapped, t);
                    match relaxed_from(f, pushed, s.radius_percentage as int, pairs, 0) {
                        Some(settled) => Some((pushed, settled)),
                        None => None,
                    }
                },
                None => None,
            }
        },
        None => None,
    }
}

fn damped(pos: &Vec3, vel: &Vec3, s: &RelaxSettings) -> (r: Option<(Vec3, Vec3)>)
    ensures
        r == damped_spec(*pos, *vel, *s),
{
    let step: Option<Vec3> = vel.times(s.drift, SCALE);
    let kept: Option<Vec3> = vel.times(s.decay, SCALE);
    let step: Vec3 = step?;
    let kept: Vec3 = kept?;
    let moved: Vec3 = pos.plus(&step)?;
    Some((moved, kept))
}

/// The damped drift of a pass. Fails, and changes nothing, where a quantity
/// has no `i64` representation.
fn drift_all(p_data: &mut ParticleData, s: &RelaxSettings) -> (r: Result<(), NumericError>)
    requires
        old(p_data).wf(),
    ensures
        final(p_data).wf(),
        match drifted_spec(old(p_data)@, *s) {
            Some(v) => r.is_ok() && final(p_data)@ == v,
            None => r.is_err() && final(p_data)@ == old(p_data)@,
        },
{
    let n: usize = p_data.radius.len();
    let mut positions: Vec<Vec3> = Vec::new();
    let mut velocities: Vec<Vec3> = Vec::new();
    let mut marks: Vec<bool> = Vec::new();
    let mut i: usize = 0;
    while i < n
        invariant
            p_data.wf(),
            *p_data == *old(p_data),
            n == p_data.count(),
            i <= n,
            positions@.len() == i,
            velocities@.len() == i,
            marks@.len() == i,
            forall|j: int| 0 <= j < i ==> !marks@[j],
            damped_columns_spec(p_data@.position, p_data@.velocity, *s, i as int) == Some(
                (positions@, velocities@),
            ),
        decreases n - i,
    {
        match damped(&p_data.position[i], &p_data.velocity[i], s) {
            Some((p, v)) => {
                positions.push(p);
                velocities.push(v);
                marks.push(false);
            },
            None => {
                proof {
                    assert(damped_columns_spec(p_data@.position, p_data@.velocity, *s, i + 1).is_none());
                    lemma_damped_stuck(p_data@.position, p_data@.velocity, *s, i + 1, n as int);
                }
                return Err(NumericError::OutOfRange);
            },
        }
        i += 1;
    }
    assert(marks@ =~= Seq::new(p_data@.is_collision.len(), |i: int| false));
    p_data.position = positions;
    p_data.velocity = velocities;
    p_data.is_collision = marks;
    Ok(())
}

/// One pass of settling. Gives whether the assembly has settled.
///
/// Fails, and leaves the entities as they were, where a quantity on the way
/// has no `i64` representation. The lists of the grid are rebuilt once the
/// entities have drifted.
pub fn relax_pass(d_data: &mut DomainData, p_data: &mut ParticleData, s: &RelaxSettings) -> (r: Result<
    bool,
    NumericError,
>)
    requires
        old(d_data).wf(),
        old(p_data).wf(),
    ensures
        final(d_data).wf(),
        final(d_data).same_frame(*old(d_data)),
        final(p_data).wf(),
        final(p_data).count() == old(p_data).count(),
        match drifted_spec(old(p_data)@, *s) {
            Some(drifted) => grid_filled(*final(d_data), drifted),
            None => *final(d_data) == *old(d_data),
        },
        match relax_pass_spec(old(d_data).frame_spec(), old(p_data)@, *s) {
            Some((v, settled)) => r == Ok::<bool, NumericError>(settled) && final(p_data)@ == v,
            None => r.is_err() && final(p_data)@ == old(p_data)@,
        },
{
    let saved_position: Vec<Vec3> = p_data.position.clone();
    let saved_velocity: Vec<Vec3> = p_data.velocity.clone();
    let saved_marks: Vec<bool> = p_data.is_collision.clone();
    assert(saved_position@ =~= p_data.position@);
    assert(saved_velocity@ =~= p_data.velocity@);
    assert(saved_marks@ =~= p_data.is_collision@);
    let ghost f = d_data.frame_spec();
    let ghost v0 = p_data@;
    match drift_all(p_data, s) {
        Ok(()) => {},
        Err(e) => {
            return Err(e);
        },
    }
    let ghost drifted = p_data@;
    update(d_data, p_data);
    proof {
        lemma_neighbour_pairs(*d_data, drifted);
        lemma_filled_is_indexed(*d_data, drifted);
    }
    relax_boundaries_box(d_data, p_data);
    assert(p_data@.position =~= wrapped_spec(drifted, f.domain).position);
    assert(p_data@ == wrapped_spec(drifted, f.domain));
    let pushed: Result<(), NumericError> = relax(d_data, p_data, s.relax_rate);
    let settled: Result<bool, NumericError> = match pushed {
        Ok(()) => is_relaxed(d_data, p_data, s.radius_percentage),
        Err(e) => Err(e),
    };
    match settled {
        Ok(b) => Ok(b),
        Err(e) => {
            p_data.position = saved_position;
            p_data.velocity = saved_velocity;
            p_data.is_collision = saved_marks;
            assert(p_data@ == v0);
            Err(e)
        },
    }
}

/// How a run of passes ended.
#[derive(Clone, Copy, Debug, PartialEq, Eq, Structural)]
pub enum Settling {
    /// No candidate pair is closer than the threshold.
    Settled,
    /// The passes allowed were used up.
    Unsettled,
    /// A pass failed; the entities are as the pass before it left them.
    Failed,
}

/// The store after at most `passes` passes, and how the run ended. It ends
/// with the first pass that settles the assembly or fails.
pub open spec fn settle_spec(f: Frame, p: ParticleView, s: RelaxSettings, passes: nat) -> (
    ParticleView,
    Settling,
)
    decreases passes,
{
    if passes == 0 {
        (p, Settling::Unsettled)
    } else {
        match relax_pass_spec(f, p, s) {
            Some((v, true)) => (v, Settling::Settled),
            Some((v, false)) => settle_spec(f, v, s, (passes - 1) as nat),
            None => (p, Settling::Failed),
        }
    }
}

/// Runs passes until the assembly has settled, at most `max_passes` of them.
/// Gives whether it has settled.
///
/// Fails where a pass fails; the entities are then as the pass before it left
/// them.
pub fn settle(d_data: &mut DomainData, p_data: &mut ParticleData, s: &RelaxSettings, max_passes: u64) -> (r:
    Result<bool, NumericError>)
    requires
        old(d_data).wf(),
        old(p_data).wf(),
    ensures
        final(d_data).wf(),
        final(d_data).same_frame(*old(d_data)),
        final(p_data).wf(),
        final(p_data)@ == settle_spec(old(d_data).frame_spec(), old(p_data)@, *s, max_passes as nat).0,
        match settle_spec(old(d_data).frame_spec(), old(p_data)@, *s, max_passes as nat).1 {
            Settling::Settled => r == Ok::<bool, NumericError>(true),
            Settling::Unsettled => r == Ok::<bool, NumericError>(false),
            Settling::Failed => r.is_err(),
        },
{
    let ghost f = d_data.frame_spec();
    let mut left: u64 = max_passes;
    while left > 0
        invariant
            d_data.wf(),
            d_data.frame_spec() == f,
            f == old(d_data).frame_spec(),
            p_data.wf(),
            settle_spec(f, old(p_data)@, *s, max_passes as nat) == settle_spec(f, p_data@, *s, left as nat),
        decreases left,
    {
        match relax_pass(d_data, p_data, s) {
            Ok(true) => {
                return Ok(true);
            },
            Ok(false) => {},
            Err(e) => {
                return Err(e);
            },
        }
        left -= 1;
    }
    Ok(false)
}

/// The volume of the first `upto` spheres.
pub open spec fn solid_volume_spec(radii: Seq<i64>, upto: int) -> Option<i64>
    decreases upto,
{
    if upto <= 0 {
        Some(0i64)
    } else {
        match (solid_volume_spec(radii, upto - 1), sphere_volume_spec(radii[upto - 1] as int)) {
            (Some(sum), Some(v)) => narrow(sum + v),
            _ => None,
        }
    }
}

proof fn lemma_solid_volume_stuck(radii: Seq<i64>, at: int, upto: int)
    requires
        0 <= at <= upto,
        solid_volume_spec(radii, at).is_none(),
    ensures
        solid_volume_spec(radii, upto).is_none(),
    decreases upto - at,
{
    if at < upto {
        lemma_solid_volume_stuck(radii, at, upto - 1);
    }
}

/// The part of the domain that the spheres fill: their volume over the volume
/// of the domain.
pub open spec fn volume_fraction_spec(f: Frame, radii: Seq<i64>) -> Option<i64> {
    match solid_volume_spec(radii, radii.len() as int) {
        Some(solid) => fx_div_spec(solid as int, f.domain_volume as int),
        None => None,
    }
}

/// The velocity of the shear flow at the height of `pos`: along `x`, the
/// height above the middle of the domain times the shear rate.
pub open spec fn shear_velocity_spec(f: Frame, pos: Vec3) -> Option<Vec3> {
    match mul_div_spec(f.domain.y as int, 1, 2) {
        Some(middle) => match narrow(pos.y - middle) {
            Some(height) => match fx_mul_spec(height as int, f.lees_edwards_boundary as int) {
                Some(x) => Some(Vec3 { x, y: 0, z: 0 }),
                None => None,
            },
            None => None,
        },
        None => None,
    }
}

/// The shear-flow velocities of the first `upto` positions.
pub open spec fn shear_profile_spec(f: Frame, pos: Seq<Vec3>, upto: int) -> Option<Seq<Vec3>>
    decreases upto,
{
    if upto <= 0 {
        Some(Seq::empty())
    } else {
        match (shear_profile_spec(f, pos, upto - 1), shear_velocity_spec(f, pos[upto - 1])) {
            (Some(vs), Some(v)) => Some(vs.push(v)),
            _ => None,
        }
    }
}

proof fn lemma_shear_profile_stuck(f: Frame, pos: Seq<Vec3>, at: int, upto: int)
    requires
        0 <= at <= upto,
        shear_profile_spec(f, pos, at).is_none(),
    ensures
        shear_profile_spec(f, pos, upto).is_none(),
    decreases upto - at,
{
    if at < upto {
        lemma_shear_profile_stuck(f, pos, at, upto - 1);
    }
}

/// The store as settling leaves it for cycling: every entity moves with the
/// shear flow at its height, and the volume fraction is on record.
pub open spec fn finished_spec(f: Frame, p: ParticleView) -> Option<ParticleView> {
    match (shear_profile_spec(f, p.position, p.count()), volume_fraction_spec(f, p.radius)) {
        (Some(vs), Some(fraction)) => Some(ParticleView { velocity: vs, volume_fraction: fraction, ..p }),
        _ => None,
    }
}

pub fn solid_volume(radii: &Vec<i64>) -> (v: Option<i64>)
    ensures
        v == solid_volume_spec(radii@, radii@.len() as int),
{
    let n: usize = radii.len();
    let mut sum: i64 = 0;
    let mut i: usize = 0;
    while i < n
        invariant
            n == radii@.len(),
            i <= n,
            solid_volume_spec(radii@, i as int) == Some(sum),
        decreases n - i,
    {
        let next: Option<i64> = match sphere_volume(radii[i]) {
            Some(v) => fx_add(sum, v),
            None => None,
        };
        match next {
            Some(v) => {
                sum = v;
            },
            None => {
                proof {
                    assert(solid_volume_spec(radii@, i + 1).is_none());
                    lemma_solid_volume_stuck(radii@, i + 1, n as int);
                }
                return None;
            },
        }
        i += 1;
    }
    Some(sum)
}

pub fn shear_velocity(f: &Frame, pos: &Vec3) -> (v: Option<Vec3>)
    ensures
        v == shear_velocity_spec(*f, *pos),
{
    let middle: i64 = mul_div(f.domain.y, 1, 2)?;
    let height: i64 = fx_sub(pos.y, middle)?;
    let x: i64 = fx_mul(height, f.lees_edwards_boundary)?;
    Some(Vec3 { x, y: 0, z: 0 })
}

/// Ends the settling: gives every entity the velocity of the shear flow at its
/// height, records the solid volume fraction, and returns it.
///
/// Fails, and changes nothing, where a quantity has no `i64` representation
/// or the domain has no volume.
pub fn finish_relaxation(d_data: &DomainData, p_data: &mut ParticleData) -> (r: Result<i64, NumericError>)
    requires
        old(p_data).wf(),
    ensures
        final(p_data).wf(),
        match finished_spec(d_data.frame_spec(), old(p_data)@) {
            Some(v) => r == Ok::<i64, NumericError>(v.volume_fraction) && final(p_data)@ == v,
            None => r.is_err() && final(p_data)@ == old(p_data)@,
        },
{
    let f: Frame = d_data.frame();
    let n: usize = p_data.radius.len();
    let mut velocities: Vec<Vec3> = Vec::new();
    let mut i: usize = 0;
    while i < n
        invariant
            p_data.wf(),
            *p_data == *old(p_data),
            f == d_data.frame_spec(),
            n == p_data.count(),
            i <= n,
            velocities@.len() == i,
            shear_profile_spec(f, p_data@.position, i as int) == Some(velocities@),
        decreases n - i,
    {
        match shear_velocity(&f, &p_data.position[i]) {
            Some(v) => {
                velocities.push(v);
            },
            None => {
                proof {
                    assert(shear_profile_spec(f, p_data@.position, i + 1).is_none());
                    lemma_shear_profile_stuck(f, p_data@.position, i + 1, n as int);
                }
                return Err(NumericError::OutOfRange);
            },
        }
        i += 1;
    }
    let fraction: Option<i64> = match solid_volume(&p_data.radius) {
        Some(solid) => fx_div(solid, f.domain_volume),
        None => None,
    };
    match fraction {
        Some(x) => {
            p_data.velocity = velocities;
            p_data.volume_fraction = x;
            Ok(x)
        },
        None => Err(NumericError::OutOfRange),
    }
}

} // verus!
