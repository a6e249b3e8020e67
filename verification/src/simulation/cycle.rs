//! Cycling: one step of time is a half kick and a drift, the sheared
//! boundary, the contact forces at the new positions, the second half kick,
//! and the stress averages.
use vstd::prelude::*;
use vstd::arithmetic::div_mod::lemma_fundamental_div_mod_converse;
use crate::boundary::{lees_edwards_boundaries, sheared_columns_spec};
use crate::calculations::{calc_collision_tensor, collision_tensor_spec, kinetic_tensor_spec,
    sphere_kinetic_tensor};
use crate::domain::{DomainData, Frame};
use crate::fixed::{NumericError, fx_add, fx_mul, fx_mul_spec, narrow};
use crate::forces::{collide_spec, collisions, opening_tally, with_tally};
use crate::grid::{grid_filled, lemma_filled_is_indexed, lemma_neighbour_pairs, neighbour_pairs, update};
use crate::integrate::{advance_columns_spec, final_integrate, inital_integrate};
use crate::sphere::{ForceData, ParticleData, ParticleView};
use crate::vector::{Mat3, Vec3};

verus! {

/// What a run of cycles carries from step to step besides the entities: the
/// two stress averages, the number of steps they stand for, and the shear
/// offset between the domain and its upper image.
#[derive(Clone, Copy, Debug, PartialEq, Eq, Structural)]
pub struct CycleState {
    pub kinetic_tensor: Mat3,
    pub collision_tensor: Mat3,
    pub average_reset_count: i64,
    pub ledisplace: i64,
}

/// The shear offset after a step of `dt`: it grows by `dt` times the shear
/// rate times the height of the domain and is kept in `[0, x extent)`.
pub open spec fn next_offset_spec(f: Frame, dt: int, ledisplace: int) -> Option<i64> {
    match fx_mul_spec(dt, f.lees_edwards_boundary as int) {
        Some(rate) => match fx_mul_spec(rate as int, f.domain.y as int) {
            Some(growth) => if f.domain.x > 0 {
                narrow((ledisplace + growth) % (f.domain.x as int))
            } else {
                None
            },
            None => None,
        },
        None => None,
    }
}

/// The store after a half kick and, where `moving` is set, a drift.
pub open spec fn advanced_spec(p: ParticleView, dt: int, moving: bool) -> Option<ParticleView> {
    match advance_columns_spec(p, dt, 1, 2, moving, p.count()) {
        Some((ps, vs)) => Some(ParticleView { position: ps, velocity: vs, ..p }),
        None => None,
    }
}

/// The store after the sheared boundary has been applied.
pub open spec fn sheared_spec(f: Frame, ledisplace: int, p: ParticleView) -> Option<ParticleView> {
    match sheared_columns_spec(f, ledisplace, p.position, p.velocity, p.count()) {
        Some((ps, vs)) => Some(ParticleView { position: ps, velocity: vs, ..p }),
        None => None,
    }
}

/// The store with no force on any entity and no entity marked as colliding.
pub open spec fn cleared_spec(p: ParticleView) -> ParticleView {
    ParticleView {
        force: Seq::new(p.force.len(), |i: int| Vec3::zero_spec()),
        is_collision: Seq::new(p.is_collision.len(), |i: int| false),
        ..p
    }
}

/// The store with the contact forces of its neighbour pairs, and the tensors
/// of the contacts.
pub open spec fn collided_spec(f: Frame, ledisplace: int, p: ParticleView) -> Option<
    (ParticleView, Seq<Mat3>),
> {
    let pairs = neighbour_pairs(f, p);
    match collide_spec(f, p, ledisplace, pairs, pairs.len() as int, opening_tally(p, Seq::empty())) {
        Some(t) => Some((with_tally(p, t), t.forcedata)),
        None => None,
    }
}

/// The entities as the grid meets them in a step: after the first half step
/// and the sheared boundary, without forces and marks.
pub open spec fn placed_spec(f: Frame, p: ParticleView, ledisplace: int, dt: int) -> Option<ParticleView> {
    match advanced_spec(p, dt, true) {
        Some(kicked) => match sheared_spec(f, ledisplace, kicked) {
            Some(inside) => Some(cleared_spec(inside)),
            None => None,
        },
        None => None,
    }
}

/// The entities after one step of time, before the stress averages.
pub open spec fn moved_spec(f: Frame, p: ParticleView, ledisplace: int, dt: int) -> Option<
    (ParticleView, Seq<Mat3>),
> {
    match placed_spec(f, p, ledisplace, dt) {
        Some(placed) => match collided_spec(f, ledisplace, placed) {
            Some((pressed, tensors)) => match advanced_spec(pressed, dt, false) {
                Some(done) => Some((done, tensors)),
                None => None,
            },
            None => None,
        },
        None => None,
    }
}

/// What a run carries on after a step that left the entities as `p` with the
/// contact tensors `tensors`.
pub open spec fn carried_spec(f: Frame, p: ParticleView, tensors: Seq<Mat3>, c: CycleState, dt: int) -> Option<
    CycleState,
> {
    match (
        kinetic_tensor_spec(
            p.velocity,
            p.mass,
            f.domain_volume as int,
            c.kinetic_tensor,
            c.average_reset_count as int,
        ),
        collision_tensor_spec(
            tensors,
            f.domain_volume as int,
            c.collision_tensor,
            c.average_reset_count as int,
        ),
        narrow(c.average_reset_count + 1),
        next_offset_spec(f, dt, c.ledisplace as int),
    ) {
        (Some(kinetic_tensor), Some(collision_tensor), Some(average_reset_count), Some(ledisplace)) => Some(
            CycleState { kinetic_tensor, collision_tensor, average_reset_count, ledisplace },
        ),
        _ => None,
    }
}

/// One step of time: the entities, the contact tensors and what the run
/// carries on.
pub open spec fn cycle_step_spec(f: Frame, p: ParticleView, c: CycleState, dt: int) -> Option<
    (ParticleView, Seq<Mat3>, CycleState),
> {
    match moved_spec(f, p, c.ledisplace as int, dt) {
        Some((done, tensors)) => match carried_spec(f, done, tensors, c, dt) {
            Some(next) => Some((done, tensors, next)),
            None => None,
        },
        None => None,
    }
}

/// The remainder of `x` by the positive `d`, in `[0, d)`.
fn wrapped_remainder(x: i128, d: i64) -> (r: i64)
    requires
        d > 0,
        -0x1_0000_0000_0000_0000 <= x <= 0x1_0000_0000_0000_0000,
    ensures
        r == (x as int) % (d as int),
        0 <= r < d,
{
    let dd: u128 = d as u128;
    if x >= 0 {
        let m: u128 = x as u128;
        (m % dd) as i64
    } else {
        let m: u128 = (-x) as u128;
        let q: u128 = m / dd;
        let rem: u128 = m % dd;
        proof {
            assert(m == dd * q + rem) by (nonlinear_arith)
                requires
                    q == m / dd,
                    rem == m % dd,
                    dd > 0,
            ;
            if rem == 0 {
                assert(x == (-(q as int)) * d + 0) by (nonlinear_arith)
                    requires
                        -x == dd * q + 0,
                        dd == d,
                ;
                lemma_fundamental_div_mod_converse(x as int, d as int, -(q as int), 0);
            } else {
                assert(x == (-(q as int) - 1) * d + (d - rem)) by (nonlinear_arith)
                    requires
                        -x == dd * q + rem,
                        dd == d,
                ;
                lemma_fundamental_div_mod_converse(x as int, d as int, -(q as int) - 1, d - rem);
            }
        }
        if rem == 0 {
            0
        } else {
            (dd - rem) as i64
        }
    }
}

/// The shear offset after a step of `dt`.
pub fn next_offset(f: &Frame, dt: i64, ledisplace: i64) -> (r: Option<i64>)
    ensures
        r == next_offset_spec(*f, dt as int, ledisplace as int),
{
    let rate: i64 = fx_mul(dt, f.lees_edwards_boundary)?;
    let growth: i64 = fx_mul(rate, f.domain.y)?;
    if f.domain.x > 0 {
        Some(wrapped_remainder(ledisplace as i128 + growth as i128, f.domain.x))
    } else {
        None
    }
}

/// Takes the forces and the collision marks of all entities back to none.
pub fn clear_forces(p_data: &mut ParticleData)
    requires
        old(p_data).wf(),
    ensures
        final(p_data).wf(),
        final(p_data)@ == cleared_spec(old(p_data)@),
{
    let n: usize = p_data.radius.len();
    let mut force: Vec<Vec3> = Vec::new();
    let mut marks: Vec<bool> = Vec::new();
    let mut i: usize = 0;
    while i < n
        invariant
            i <= n,
            force@.len() == i,
            marks@.len() == i,
            forall|j: int| 0 <= j < i ==> force@[j] == Vec3::zero_spec() && !marks@[j],
        decreases n - i,
    {
        force.push(Vec3::zero());
        marks.push(false);
        i += 1;
    }
    assert(force@ =~= cleared_spec(p_data@).force);
    assert(marks@ =~= cleared_spec(p_data@).is_collision);
    p_data.force = force;
    p_data.is_collision = marks;
}

/// `self` is `before` but for the motion of the entities: their positions,
/// velocities, forces and collision marks.
pub open spec fn same_but_motion(after: ParticleView, before: ParticleView) -> bool {
    after == (ParticleView {
        position: after.position,
        velocity: after.velocity,
        force: after.force,
        is_collision: after.is_collision,
        ..before
    })
}

/// The entities' part of a step. Where it fails the motion of the entities is
/// in no particular state.
fn move_entities(
    d_data: &mut DomainData,
    p_data: &mut ParticleData,
    f_data: &mut ForceData,
    dt: i64,
    ledisplace: i64,
) -> (r: Result<(), NumericError>)
    requires
        old(d_data).wf(),
        old(p_data).wf(),
    ensures
        final(d_data).wf(),
        final(d_data).same_frame(*old(d_data)),
        final(p_data).wf(),
        same_but_motion(final(p_data)@, old(p_data)@),
        final(p_data).count() == old(p_data).count(),
        final(f_data).particle_indexes == old(f_data).particle_indexes,
        final(f_data).force == old(f_data).force,
        final(f_data).del == old(f_data).del,
        match placed_spec(old(d_data).frame_spec(), old(p_data)@, ledisplace as int, dt as int) {
            Some(placed) => grid_filled(*final(d_data), placed),
            None => *final(d_data) == *old(d_data),
        },
        match moved_spec(old(d_data).frame_spec(), old(p_data)@, ledisplace as int, dt as int) {
            Some((v, tensors)) => r.is_ok() && final(p_data)@ == v && final(f_data).forcedata@ == tensors,
            None => r.is_err(),
        },
{
    inital_integrate(p_data, dt)?;
    lees_edwards_boundaries(d_data, p_data, dt, ledisplace)?;
    clear_forces(p_data);
    f_data.forcedata.clear();
    update(d_data, p_data);
    proof {
        lemma_neighbour_pairs(*d_data, p_data@);
        lemma_filled_is_indexed(*d_data, p_data@);
    }
    collisions(d_data, p_data, f_data, dt, ledisplace)?;
    final_integrate(p_data, dt)?;
    Ok(())
}

/// What the run carries on after a step.
fn carry_on(d_data: &DomainData, p_data: &ParticleData, f_data: &ForceData, state: &CycleState, dt: i64) -> (r:
    Option<CycleState>)
    requires
        p_data.wf(),
    ensures
        r == carried_spec(d_data.frame_spec(), p_data@, f_data.forcedata@, *state, dt as int),
{
    let kinetic_tensor: Option<Mat3> = sphere_kinetic_tensor(
        p_data,
        d_data,
        state.kinetic_tensor,
        state.average_reset_count,
    );
    let collision_tensor: Option<Mat3> = calc_collision_tensor(
        f_data,
        d_data,
        state.collision_tensor,
        state.average_reset_count,
    );
    let average_reset_count: Option<i64> = fx_add(state.average_reset_count, 1);
    let f: Frame = d_data.frame();
    let ledisplace: Option<i64> = next_offset(&f, dt, state.ledisplace);
    let kinetic_tensor: Mat3 = kinetic_tensor?;
    let collision_tensor: Mat3 = collision_tensor?;
    let average_reset_count: i64 = average_reset_count?;
    let ledisplace: i64 = ledisplace?;
    Some(CycleState { kinetic_tensor, collision_tensor, average_reset_count, ledisplace })
}

/// One step of time. The entities take a half kick and drift, are taken back
/// into the domain through the sheared boundary, lose their forces and
/// marks, and the grid is filled from where they are; the contact forces of
/// the neighbour pairs are summed; the entities take the second half kick;
/// the stress averages take in the step, and the shear offset grows.
///
/// Fails, and leaves the entities, the contact tensors and `state` as they
/// were, where a quantity on the way has no `i64` representation. The lists
/// of the grid are rebuilt once the entities have been placed.
pub fn cycle_step(
    d_data: &mut DomainData,
    p_data: &mut ParticleData,
    f_data: &mut ForceData,
    state: &mut CycleState,
    dt: i64,
) -> (r: Result<(), NumericError>)
    requires
        old(d_data).wf(),
        old(p_data).wf(),
    ensures
        final(d_data).wf(),
        final(d_data).same_frame(*old(d_data)),
        final(p_data).wf(),
        final(f_data).particle_indexes == old(f_data).particle_indexes,
        final(f_data).force == old(f_data).force,
        final(f_data).del == old(f_data).del,
        match placed_spec(old(d_data).frame_spec(), old(p_data)@, old(state).ledisplace as int, dt as int) {
            Some(placed) => grid_filled(*final(d_data), placed),
            None => *final(d_data) == *old(d_data),
        },
        match cycle_step_spec(old(d_data).frame_spec(), old(p_data)@, *old(state), dt as int) {
            Some((v, tensors, c)) => r.is_ok() && final(p_data)@ == v && final(f_data).forcedata@ == tensors
                && *final(state) == c,
            None => r.is_err() && final(p_data)@ == old(p_data)@ && final(f_data).forcedata@ == old(f_data).forcedata@ && *final(state) == *old(state),
        },
{
    let saved_position: Vec<Vec3> = p_data.position.clone();
    let saved_velocity: Vec<Vec3> = p_data.velocity.clone();
    let saved_force: Vec<Vec3> = p_data.force.clone();
    let saved_marks: Vec<bool> = p_data.is_collision.clone();
    let saved_tensors: Vec<Mat3> = f_data.forcedata.clone();
    assert(saved_position@ =~= p_data.position@);
    assert(saved_velocity@ =~= p_data.velocity@);
    assert(saved_force@ =~= p_data.force@);
    assert(saved_marks@ =~= p_data.is_collision@);
    assert(saved_tensors@ =~= f_data.forcedata@);
    let moved: Result<(), NumericError> = move_entities(d_data, p_data, f_data, dt, state.ledisplace);
    let next: Option<CycleState> = match moved {
        Ok(()) => carry_on(d_data, p_data, f_data, state, dt),
        Err(_) => None,
    };
    match next {
        Some(c) => {
            *state = c;
            Ok(())
        },
        None => {
            p_data.position = saved_position;
            p_data.velocity = saved_velocity;
            p_data.force = saved_force;
            p_data.is_collision = saved_marks;
            f_data.forcedata = saved_tensors;
            assert(p_data@ == old(p_data)@);
            Err(NumericError::OutOfRange)
        },
    }
}

/// Whether something that is done every `rate` steps is due at step `count`.
pub fn due(count: u64, rate: u64) -> (r: bool)
    requires
        rate > 0,
    ensures
        r == (count % rate == 0),
{
    count % rate == 0
}

impl CycleState {
    /// The state with which a run begins: empty averages and no shear offset.
    pub fn new() -> (c: CycleState)
        ensures
            c == (CycleState {
                kinetic_tensor: Mat3::zero_spec(),
                collision_tensor: Mat3::zero_spec(),
                average_reset_count: 0,
                ledisplace: 0,
            }),
    {
        CycleState {
            kinetic_tensor: Mat3::zero(),
            collision_tensor: Mat3::zero(),
            average_reset_count: 0,
            ledisplace: 0,
        }
    }

    /// Begins the stress averages anew. The shear offset stays.
    pub fn clear_averages(&mut self)
        ensures
            *final(self) == (CycleState {
                kinetic_tensor: Mat3::zero_spec(),
                collision_tensor: Mat3::zero_spec(),
                average_reset_count: 0,
                ledisplace: old(self).ledisplace,
            }),
    {
        self.kinetic_tensor = Mat3::zero();
        self.collision_tensor = Mat3::zero();
        self.average_reset_count = 0;
    }
}

} // verus!
