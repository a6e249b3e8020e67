//! The force evaluation of one cycle: every candidate pair is tested, with the
//! periodic image of an entity where the pair reaches across the boundary,
//! and the contact forces are summed per entity.
use vstd::prelude::*;
use crate::contact::{Body, PairForce, Touch, pair_contact, pair_contact_spec};
use crate::domain::{DomainData, Frame};
use crate::fixed::{NumericError, fits, narrow, fx_add, fx_mul, fx_mul_spec, to_i64};
use crate::grid::{Pair, candidate_pairs, candidate_pairs_spec, grid_indexed, pairs_indexed,
    lemma_pairs_indexed, real_pairs, real_row};
use crate::sphere::{ForceData, ParticleData, ParticleView};
use crate::vector::{Mat3, Vec3};

verus! {

impl ParticleView {
    /// What the contact laws read of entity `i`.
    pub open spec fn body_spec(self, i: int) -> Body {
        Body {
            position: self.position[i],
            velocity: self.velocity[i],
            radius: self.radius[i],
            mass: self.mass[i],
            youngs_mod: self.youngs_mod[i],
            poisson_ratio: self.poisson_ratio[i],
        }
    }
}

impl ParticleData {
    pub fn body(&self, i: usize) -> (b: Body)
        requires
            self.wf(),
            i < self.count(),
        ensures
            b == self@.body_spec(i as int),
    {
        Body {
            position: self.position[i],
            velocity: self.velocity[i],
            radius: self.radius[i],
            mass: self.mass[i],
            youngs_mod: self.youngs_mod[i],
            poisson_ratio: self.poisson_ratio[i],
        }
    }
}

/// On one axis of length `extent`, the sphere at `a` is seen from the one at
/// `b` across the periodic boundary: moved up by `extent`, its lower end is
/// not above the upper end of the other.
pub open spec fn reaches_across(a: int, ra: int, b: int, rb: int, extent: int) -> bool {
    a - ra + extent <= b + rb
}

/// The coordinates of two spheres on one axis, one of them moved up by the
/// extent of the domain where they face each other across the boundary.
pub open spec fn axis_images_spec(a: int, ra: int, b: int, rb: int, extent: int) -> Option<(i64, i64)> {
    if reaches_across(a, ra, b, rb, extent) {
        if fits(a + extent) && fits(b) {
            Some(((a + extent) as i64, b as i64))
        } else {
            None
        }
    } else if reaches_across(b, rb, a, ra, extent) {
        if fits(b + extent) && fits(a) {
            Some((a as i64, (b + extent) as i64))
        } else {
            None
        }
    } else {
        if fits(a) && fits(b) {
            Some((a as i64, b as i64))
        } else {
            None
        }
    }
}

/// The image of `body` one domain height up, in the sheared frame: it moves
/// with the upper image of the domain, so its velocity gains the shear rate
/// times the height, and its place along the shear is offset by `ledisplace`
/// and taken back into the domain once.
pub open spec fn lifted_spec(body: Body, d: Frame, ledisplace: int) -> Option<Body> {
    match (
        narrow(body.position.y + d.domain.y),
        fx_mul_spec(d.lees_edwards_boundary as int, d.domain.y as int),
        narrow(body.position.x + ledisplace),
    ) {
        (Some(y), Some(jump), Some(x)) => {
            let back = if x > d.domain.x {
                x - d.domain.x
            } else {
                x as int
            };
            if fits(body.velocity.x + jump) && fits(back) {
                Some(
                    Body {
                        position: Vec3 { x: back as i64, y, z: body.position.z },
                        velocity: Vec3 {
                            x: (body.velocity.x + jump) as i64,
                            y: body.velocity.y,
                            z: body.velocity.z,
                        },
                        ..body
                    },
                )
            } else {
                None
            }
        },
        _ => None,
    }
}

/// The two entities as they face each other across the sheared boundary in `y`.
pub open spec fn sheared_y_spec(d: Frame, ledisplace: int, a: Body, b: Body) -> Option<(Body, Body)> {
    if reaches_across(
        a.position.y as int,
        a.radius as int,
        b.position.y as int,
        b.radius as int,
        d.domain.y as int,
    ) {
        match lifted_spec(a, d, ledisplace) {
            Some(a2) => Some((a2, b)),
            None => None,
        }
    } else if reaches_across(
        b.position.y as int,
        b.radius as int,
        a.position.y as int,
        a.radius as int,
        d.domain.y as int,
    ) {
        match lifted_spec(b, d, ledisplace) {
            Some(b2) => Some((a, b2)),
            None => None,
        }
    } else {
        Some((a, b))
    }
}

/// The two entities as they face each other across the plain periodic
/// boundary in `y`.
pub open spec fn plain_y_spec(d: Frame, a: Body, b: Body) -> Option<(Body, Body)> {
    match axis_images_spec(
        a.position.y as int,
        a.radius as int,
        b.position.y as int,
        b.radius as int,
        d.domain.y as int,
    ) {
        Some((ay, by)) => Some(
            (
                Body { position: Vec3 { y: ay, ..a.position }, ..a },
                Body { position: Vec3 { y: by, ..b.position }, ..b },
            ),
        ),
        None => None,
    }
}

/// The two entities as they face each other across the boundaries in `x` and `z`.
pub open spec fn plain_xz_spec(d: Frame, a: Body, b: Body) -> Option<(Body, Body)> {
    match (
        axis_images_spec(
            a.position.x as int,
            a.radius as int,
            b.position.x as int,
            b.radius as int,
            d.domain.x as int,
        ),
        axis_images_spec(
            a.position.z as int,
            a.radius as int,
            b.position.z as int,
            b.radius as int,
            d.domain.z as int,
        ),
    ) {
        (Some((ax, bx)), Some((az, bz))) => Some(
            (
                Body { position: Vec3 { x: ax, y: a.position.y, z: az }, ..a },
                Body { position: Vec3 { x: bx, y: b.position.y, z: bz }, ..b },
            ),
        ),
        _ => None,
    }
}

/// The images of a real entity and a ghost under the sheared boundary: first
/// across `y`, with the shear, then across `x` and `z`.
pub open spec fn sheared_images_spec(d: Frame, ledisplace: int, a: Body, b: Body) -> Option<
    (Body, Body),
> {
    match sheared_y_spec(d, ledisplace, a, b) {
        Some((a2, b2)) => plain_xz_spec(d, a2, b2),
        None => None,
    }
}

/// The images of a real entity and a ghost under the plain periodic boundary.
pub open spec fn plain_images_spec(d: Frame, a: Body, b: Body) -> Option<(Body, Body)> {
    match plain_y_spec(d, a, b) {
        Some((a2, b2)) => plain_xz_spec(d, a2, b2),
        None => None,
    }
}

fn across(a: i64, ra: i64, b: i64, rb: i64, extent: i64) -> (r: bool)
    ensures
        r == reaches_across(a as int, ra as int, b as int, rb as int, extent as int),
{
    a as i128 - ra as i128 + extent as i128 <= b as i128 + rb as i128
}

pub fn axis_images(a: i64, ra: i64, b: i64, rb: i64, extent: i64) -> (r: Option<(i64, i64)>)
    ensures
        r == axis_images_spec(a as int, ra as int, b as int, rb as int, extent as int),
{
    if across(a, ra, b, rb, extent) {
        let a2: i64 = fx_add(a, extent)?;
        Some((a2, b))
    } else if across(b, rb, a, ra, extent) {
        let b2: i64 = fx_add(b, extent)?;
        Some((a, b2))
    } else {
        Some((a, b))
    }
}

pub fn lifted(body: &Body, d_data: &Frame, ledisplace: i64) -> (r: Option<Body>)
    ensures
        r == lifted_spec(*body, *d_data, ledisplace as int),
{
    let y: Option<i64> = fx_add(body.position.y, d_data.domain.y);
    let jump: Option<i64> = fx_mul(d_data.lees_edwards_boundary, d_data.domain.y);
    let x: Option<i64> = fx_add(body.position.x, ledisplace);
    let y: i64 = y?;
    let jump: i64 = jump?;
    let x: i64 = x?;
    let back: Option<i64> = if x > d_data.domain.x {
        to_i64(x as i128 - d_data.domain.x as i128)
    } else {
        Some(x)
    };
    let vx: Option<i64> = fx_add(body.velocity.x, jump);
    let vx: i64 = vx?;
    let back: i64 = back?;
    Some(
        Body {
            position: Vec3 { x: back, y, z: body.position.z },
            velocity: Vec3 { x: vx, y: body.velocity.y, z: body.velocity.z },
            radius: body.radius,
            mass: body.mass,
            youngs_mod: body.youngs_mod,
            poisson_ratio: body.poisson_ratio,
        },
    )
}

pub fn sheared_y(d_data: &Frame, ledisplace: i64, a: &Body, b: &Body) -> (r: Option<(Body, Body)>)
    ensures
        r == sheared_y_spec(*d_data, ledisplace as int, *a, *b),
{
    if across(a.position.y, a.radius, b.position.y, b.radius, d_data.domain.y) {
        let a2: Body = lifted(a, d_data, ledisplace)?;
        Some((a2, *b))
    } else if across(b.position.y, b.radius, a.position.y, a.radius, d_data.domain.y) {
        let b2: Body = lifted(b, d_data, ledisplace)?;
        Some((*a, b2))
    } else {
        Some((*a, *b))
    }
}

pub fn plain_y(d_data: &Frame, a: &Body, b: &Body) -> (r: Option<(Body, Body)>)
    ensures
        r == plain_y_spec(*d_data, *a, *b),
{
    let (ay, by) = axis_images(a.position.y, a.radius, b.position.y, b.radius, d_data.domain.y)?;
    Some(
        (
            Body {
                position: Vec3 { x: a.position.x, y: ay, z: a.position.z },
                velocity: a.velocity,
                radius: a.radius,
                mass: a.mass,
                youngs_mod: a.youngs_mod,
                poisson_ratio: a.poisson_ratio,
            },
            Body {
                position: Vec3 { x: b.position.x, y: by, z: b.position.z },
                velocity: b.velocity,
                radius: b.radius,
                mass: b.mass,
                youngs_mod: b.youngs_mod,
                poisson_ratio: b.poisson_ratio,
            },
        ),
    )
}

pub fn plain_xz(d_data: &Frame, a: &Body, b: &Body) -> (r: Option<(Body, Body)>)
    ensures
        r == plain_xz_spec(*d_data, *a, *b),
{
    let xs: Option<(i64, i64)> = axis_images(
        a.position.x,
        a.radius,
        b.position.x,
        b.radius,
        d_data.domain.x,
    );
    let zs: Option<(i64, i64)> = axis_images(
        a.position.z,
        a.radius,
        b.position.z,
        b.radius,
        d_data.domain.z,
    );
    let (ax, bx) = xs?;
    let (az, bz) = zs?;
    Some(
        (
            Body {
                position: Vec3 { x: ax, y: a.position.y, z: az },
                velocity: a.velocity,
                radius: a.radius,
                mass: a.mass,
                youngs_mod: a.youngs_mod,
                poisson_ratio: a.poisson_ratio,
            },
            Body {
                position: Vec3 { x: bx, y: b.position.y, z: bz },
                velocity: b.velocity,
                radius: b.radius,
                mass: b.mass,
                youngs_mod: b.youngs_mod,
                poisson_ratio: b.poisson_ratio,
            },
        ),
    )
}

pub fn sheared_images(d_data: &Frame, ledisplace: i64, a: &Body, b: &Body) -> (r: Option<
    (Body, Body),
>)
    ensures
        r == sheared_images_spec(*d_data, ledisplace as int, *a, *b),
{
    let (a2, b2) = sheared_y(d_data, ledisplace, a, b)?;
    plain_xz(d_data, &a2, &b2)
}

pub fn plain_images(d_data: &Frame, a: &Body, b: &Body) -> (r: Option<(Body, Body)>)
    ensures
        r == plain_images_spec(*d_data, *a, *b),
{
    let (a2, b2) = plain_y(d_data, a, b)?;
    plain_xz(d_data, &a2, &b2)
}

/// The sums that a force evaluation builds up: the force on every entity,
/// which entities are in contact, and the tensors of the contacts found.
pub struct Tally {
    pub force: Seq<Vec3>,
    pub is_collision: Seq<bool>,
    pub forcedata: Seq<Mat3>,
}

/// The test of one candidate pair: of the two entities as they are, or, where
/// the second is a ghost, of their images across the sheared boundary and
/// with half the force, since the pair is then met from both sides.
#[verifier::opaque]
pub open spec fn pair_touch_spec(d: Frame, p: ParticleView, ledisplace: int, q: Pair) -> Option<Touch> {
    let a = p.body_spec(q.first as int);
    let b = p.body_spec(q.second as int);
    if q.with_ghost {
        match sheared_images_spec(d, ledisplace, a, b) {
            Some((a2, b2)) => pair_contact_spec(a2, b2, p.beta as int, true),
            None => None,
        }
    } else {
        pair_contact_spec(a, b, p.beta as int, false)
    }
}

/// Enters one contact in the sums: the force is taken from the first entity
/// and given to the second, both are marked, and the tensor is recorded.
pub open spec fn apply_force_spec(t: Tally, first: int, second: int, f: PairForce) -> Option<Tally> {
    match t.force[first].minus_spec(f.force) {
        Some(on_first) => {
            let force = t.force.update(first, on_first);
            match force[second].plus_spec(f.force) {
                Some(on_second) => Some(
                    Tally {
                        force: force.update(second, on_second),
                        is_collision: t.is_collision.update(first, true).update(second, true),
                        forcedata: t.forcedata.push(f.tensor),
                    },
                ),
                None => None,
            }
        },
        None => None,
    }
}

/// The sums after one more candidate pair.
pub open spec fn collide_step_spec(d: Frame, p: ParticleView, ledisplace: int, t: Tally, q: Pair) -> Option<
    Tally,
> {
    match pair_touch_spec(d, p, ledisplace, q) {
        Some(Touch::Apart) => Some(t),
        Some(Touch::Pressing(f)) => apply_force_spec(t, q.first as int, q.second as int, f),
        None => None,
    }
}

/// The sums after the first `upto` pairs of `pairs`, from `start`; `None`
/// where a quantity on the way has no `i64` representation.
pub open spec fn collide_spec(
    d: Frame,
    p: ParticleView,
    ledisplace: int,
    pairs: Seq<Pair>,
    upto: int,
    start: Tally,
) -> Option<Tally>
    decreases upto,
{
    if upto <= 0 {
        Some(start)
    } else {
        match collide_spec(d, p, ledisplace, pairs, upto - 1, start) {
            Some(t) => collide_step_spec(d, p, ledisplace, t, pairs[upto - 1]),
            None => None,
        }
    }
}

/// Once a pair has failed, the evaluation has failed.
pub proof fn lemma_collide_stuck(
    d: Frame,
    p: ParticleView,
    ledisplace: int,
    pairs: Seq<Pair>,
    at: int,
    upto: int,
    start: Tally,
)
    requires
        0 <= at <= upto,
        collide_spec(d, p, ledisplace, pairs, at, start).is_none(),
    ensures
        collide_spec(d, p, ledisplace, pairs, upto, start).is_none(),
    decreases upto - at,
{
    if at < upto {
        lemma_collide_stuck(d, p, ledisplace, pairs, at, upto - 1, start);
    }
}

/// The sums with which the evaluation of a cycle begins: the forces and marks
/// of the entities, and the tensors recorded so far.
pub open spec fn opening_tally(p: ParticleView, forcedata: Seq<Mat3>) -> Tally {
    Tally { force: p.force, is_collision: p.is_collision, forcedata }
}

/// The store with the sums of a force evaluation entered.
pub open spec fn with_tally(p: ParticleView, t: Tally) -> ParticleView {
    ParticleView { force: t.force, is_collision: t.is_collision, ..p }
}

pub fn pair_touch(d_data: &Frame, p_data: &ParticleData, ledisplace: i64, q: &Pair) -> (r: Option<
    Touch,
>)
    requires
        p_data.wf(),
        q.first < p_data.count(),
        q.second < p_data.count(),
    ensures
        r == pair_touch_spec(*d_data, p_data@, ledisplace as int, *q),
{
    reveal(pair_touch_spec);
    let a: Body = p_data.body(q.first);
    let b: Body = p_data.body(q.second);
    if q.with_ghost {
        let (a2, b2) = sheared_images(d_data, ledisplace, &a, &b)?;
        pair_contact(&a2, &b2, p_data.beta, true)
    } else {
        pair_contact(&a, &b, p_data.beta, false)
    }
}

/// Enters one contact in the running sums. Gives `false`, with the sums in no
/// particular state, where a sum has no representation.
fn enter_force(
    force: &mut Vec<Vec3>,
    marks: &mut Vec<bool>,
    tensors: &mut Vec<Mat3>,
    first: usize,
    second: usize,
    f: &PairForce,
) -> (entered: bool)
    requires
        first < old(force)@.len(),
        second < old(force)@.len(),
        old(marks)@.len() == old(force)@.len(),
    ensures
        final(force)@.len() == old(force)@.len(),
        final(marks)@.len() == old(marks)@.len(),
        match apply_force_spec(
            Tally { force: old(force)@, is_collision: old(marks)@, forcedata: old(tensors)@ },
            first as int,
            second as int,
            *f,
        ) {
            Some(t) => entered && final(force)@ == t.force && final(marks)@ == t.is_collision
                && final(tensors)@ == t.forcedata,
            None => !entered,
        },
{
    let on_first: Option<Vec3> = force[first].minus(&f.force);
    match on_first {
        None => {
            return false;
        },
        Some(v) => {
            force[first] = v;
        },
    }
    let on_second: Option<Vec3> = force[second].plus(&f.force);
    match on_second {
        None => {
            return false;
        },
        Some(v) => {
            force[second] = v;
        },
    }
    marks[first] = true;
    marks[second] = true;
    tensors.push(f.tensor);
    true
}

/// Evaluates the contact forces over `pairs` and adds them to the forces of
/// the entities. Where a quantity has no representation nothing is changed.
fn collide_over(
    d_data: &Frame,
    p_data: &mut ParticleData,
    f_data: &mut ForceData,
    ledisplace: i64,
    pairs: &Vec<Pair>,
) -> (r: Result<(), NumericError>)
    requires
        old(p_data).wf(),
        pairs_indexed(pairs@, old(p_data).count()),
    ensures
        final(p_data).wf(),
        final(f_data).particle_indexes == old(f_data).particle_indexes,
        final(f_data).force == old(f_data).force,
        final(f_data).del == old(f_data).del,
        match collide_spec(
            *d_data,
            old(p_data)@,
            ledisplace as int,
            pairs@,
            pairs@.len() as int,
            opening_tally(old(p_data)@, old(f_data).forcedata@),
        ) {
            Some(t) => r.is_ok() && final(p_data)@ == with_tally(old(p_data)@, t)
                && final(f_data).forcedata@ == t.forcedata,
            None => r.is_err() && final(p_data)@ == old(p_data)@
                && final(f_data).forcedata@ == old(f_data).forcedata@,
        },
{
    let ghost start = opening_tally(p_data@, f_data.forcedata@);
    let ghost before = p_data@;
    let mut force: Vec<Vec3> = p_data.force.clone();
    let mut marks: Vec<bool> = p_data.is_collision.clone();
    let mut tensors: Vec<Mat3> = f_data.forcedata.clone();
    assert(force@ =~= p_data.force@);
    assert(marks@ =~= p_data.is_collision@);
    assert(tensors@ =~= f_data.forcedata@);
    let n: usize = pairs.len();
    let mut t: usize = 0;
    while t < n
        invariant
            p_data.wf(),
            p_data@ == before,
            before == old(p_data)@,
            *f_data == *old(f_data),
            start == opening_tally(old(p_data)@, old(f_data).forcedata@),
            pairs_indexed(pairs@, p_data.count()),
            n == pairs@.len(),
            t <= n,
            force@.len() == p_data.count(),
            marks@.len() == p_data.count(),
            collide_spec(*d_data, before, ledisplace as int, pairs@, t as int, start) == Some(
                Tally { force: force@, is_collision: marks@, forcedata: tensors@ },
            ),
        decreases n - t,
    {
        let q: Pair = pairs[t];
        let touch: Option<Touch> = pair_touch(d_data, p_data, ledisplace, &q);
        match touch {
            None => {
                proof {
                    assert(collide_spec(*d_data, before, ledisplace as int, pairs@, t + 1, start).is_none());
                    lemma_collide_stuck(*d_data, before, ledisplace as int, pairs@, t + 1, n as int, start);
                }
                return Err(NumericError::OutOfRange);
            },
            Some(Touch::Apart) => {},
            Some(Touch::Pressing(f)) => {
                let entered: bool = enter_force(&mut force, &mut marks, &mut tensors, q.first, q.second, &f);
                if !entered {
                    proof {
                        assert(collide_spec(*d_data, before, ledisplace as int, pairs@, t + 1, start).is_none());
                        lemma_collide_stuck(*d_data, before, ledisplace as int, pairs@, t + 1, n as int, start);
                    }
                    return Err(NumericError::OutOfRange);
                }
            },
        }
        t += 1;
    }
    p_data.force = force;
    p_data.is_collision = marks;
    f_data.forcedata = tensors;
    Ok(())
}

/// The contact forces of one cycle. Every candidate pair of the grid is
/// tested; where two spheres overlap, the Hertz force less the damping force
/// acts along the line of centres, on the one entity and, reversed, on the
/// other, both are marked as colliding, and the tensor of force and
/// separation is recorded. Positions and velocities are only read.
///
/// Fails, and changes nothing, where a quantity on the way has no `i64`
/// representation.
pub fn collisions(
    d_data: &DomainData,
    p_data: &mut ParticleData,
    f_data: &mut ForceData,
    _dt: i64,
    ledisplace: i64,
) -> (r: Result<(), NumericError>)
    requires
        d_data.wf(),
        old(p_data).wf(),
        grid_indexed(*d_data, old(p_data).count()),
    ensures
        final(p_data).wf(),
        final(f_data).particle_indexes == old(f_data).particle_indexes,
        final(f_data).force == old(f_data).force,
        final(f_data).del == old(f_data).del,
        match collide_spec(
            d_data.frame_spec(),
            old(p_data)@,
            ledisplace as int,
            candidate_pairs_spec(*d_data),
            candidate_pairs_spec(*d_data).len() as int,
            opening_tally(old(p_data)@, old(f_data).forcedata@),
        ) {
            Some(t) => r.is_ok() && final(p_data)@ == with_tally(old(p_data)@, t)
                && final(f_data).forcedata@ == t.forcedata,
            None => r.is_err() && final(p_data)@ == old(p_data)@
                && final(f_data).forcedata@ == old(f_data).forcedata@,
        },
{
    let pairs: Vec<Pair> = candidate_pairs(d_data);
    proof {
        lemma_pairs_indexed(*d_data, p_data.count());
    }
    let frame: Frame = d_data.frame();
    collide_over(&frame, p_data, f_data, ledisplace, &pairs)
}

/// The sums that a brute-force evaluation builds up: the force on every
/// entity, which entities are in contact, and for every contact the pair,
/// the force on its second entity and the separation.
pub struct BruteTally {
    pub force: Seq<Vec3>,
    pub is_collision: Seq<bool>,
    pub particle_indexes: Seq<(usize, usize)>,
    pub contact_force: Seq<Vec3>,
    pub del: Seq<Vec3>,
}

/// The test of the pair `(first, second)` without a grid: of the images of
/// the two across the sheared boundary, with the whole force.
#[verifier::opaque]
pub open spec fn brute_touch_spec(d: Frame, p: ParticleView, ledisplace: int, first: int, second: int) -> Option<
    Touch,
> {
    match sheared_images_spec(d, ledisplace, p.body_spec(first), p.body_spec(second)) {
        Some((a2, b2)) => pair_contact_spec(a2, b2, p.beta as int, false),
        None => None,
    }
}

/// The sums after one more pair.
pub open spec fn brute_step_spec(d: Frame, p: ParticleView, ledisplace: int, t: BruteTally, q: Pair) -> Option<
    BruteTally,
> {
    match brute_touch_spec(d, p, ledisplace, q.first as int, q.second as int) {
        Some(Touch::Apart) => Some(t),
        Some(Touch::Pressing(f)) => match t.force[q.first as int].minus_spec(f.force) {
            Some(on_first) => {
                let force = t.force.update(q.first as int, on_first);
                match force[q.second as int].plus_spec(f.force) {
                    Some(on_second) => Some(
                        BruteTally {
                            force: force.update(q.second as int, on_second),
                            is_collision: t.is_collision.update(q.first as int, true).update(
                                q.second as int,
                                true,
                            ),
                            particle_indexes: t.particle_indexes.push((q.first, q.second)),
                            contact_force: t.contact_force.push(f.force),
                            del: t.del.push(f.delta),
                        },
                    ),
                    None => None,
                }
            },
            None => None,
        },
        None => None,
    }
}

/// The sums after the first `upto` pairs of `pairs`, from `start`.
pub open spec fn brute_spec(
    d: Frame,
    p: ParticleView,
    ledisplace: int,
    pairs: Seq<Pair>,
    upto: int,
    start: BruteTally,
) -> Option<BruteTally>
    decreases upto,
{
    if upto <= 0 {
        Some(start)
    } else {
        match brute_spec(d, p, ledisplace, pairs, upto - 1, start) {
            Some(t) => brute_step_spec(d, p, ledisplace, t, pairs[upto - 1]),
            None => None,
        }
    }
}

/// Once a pair has failed, the evaluation has failed.
pub proof fn lemma_brute_stuck(
    d: Frame,
    p: ParticleView,
    ledisplace: int,
    pairs: Seq<Pair>,
    at: int,
    upto: int,
    start: BruteTally,
)
    requires
        0 <= at <= upto,
        brute_spec(d, p, ledisplace, pairs, at, start).is_none(),
    ensures
        brute_spec(d, p, ledisplace, pairs, upto, start).is_none(),
    decreases upto - at,
{
    if at < upto {
        lemma_brute_stuck(d, p, ledisplace, pairs, at, upto - 1, start);
    }
}

/// The indices `0, 1, ..., n - 1`.
pub open spec fn all_indices(n: int) -> Seq<usize> {
    Seq::new(n as nat, |i: int| i as usize)
}

/// Every pair of two of the first `n` entities, the lower index first.
pub open spec fn all_pairs_spec(n: int) -> Seq<Pair> {
    real_pairs(all_indices(n), n)
}

/// The sums with which a brute-force evaluation begins.
pub open spec fn opening_brute_tally(p: ParticleView, f: ForceData) -> BruteTally {
    BruteTally {
        force: p.force,
        is_collision: p.is_collision,
        particle_indexes: f.particle_indexes@,
        contact_force: f.force@,
        del: f.del@,
    }
}

/// Lists every pair of two of the first `n` entities.
pub fn all_pairs(n: usize) -> (pairs: Vec<Pair>)
    ensures
        pairs@ == all_pairs_spec(n as int),
        pairs_indexed(pairs@, n as int),
{
    let ghost list = all_indices(n as int);
    let mut pairs: Vec<Pair> = Vec::new();
    let mut a: usize = 0;
    while a < n
        invariant
            list == all_indices(n as int),
            a <= n,
            pairs@ == real_pairs(list, a as int),
            pairs_indexed(pairs@, n as int),
        decreases n - a,
    {
        let mut b: usize = a + 1;
        while b < n
            invariant
                list == all_indices(n as int),
                a < n,
                a + 1 <= b <= n,
                pairs@ == real_pairs(list, a as int) + real_row(list, a as int, b as int),
                pairs_indexed(pairs@, n as int),
            decreases n - b,
        {
            pairs.push(Pair { first: a, second: b, with_ghost: false });
            b += 1;
        }
        assert(pairs@ =~= real_pairs(list, a as int + 1));
        a += 1;
    }
    pairs
}

pub fn brute_touch(d_data: &Frame, p_data: &ParticleData, ledisplace: i64, first: usize, second: usize) -> (r:
    Option<Touch>)
    requires
        p_data.wf(),
        first < p_data.count(),
        second < p_data.count(),
    ensures
        r == brute_touch_spec(*d_data, p_data@, ledisplace as int, first as int, second as int),
{
    reveal(brute_touch_spec);
    let a: Body = p_data.body(first);
    let b: Body = p_data.body(second);
    let (a2, b2) = sheared_images(d_data, ledisplace, &a, &b)?;
    pair_contact(&a2, &b2, p_data.beta, false)
}

/// The contact forces without a grid: every pair of two entities is tested,
/// as their images across the sheared boundary, and every contact acts with
/// its whole force. The pair, the force on its second entity and the
/// separation of every contact are recorded.
///
/// Fails, and changes nothing, where a quantity on the way has no `i64`
/// representation.
pub fn _simp_collisions(
    d_data: &DomainData,
    p_data: &mut ParticleData,
    f_data: &mut ForceData,
    _dt: i64,
    ledisplace: i64,
) -> (r: Result<(), NumericError>)
    requires
        old(p_data).wf(),
    ensures
        final(p_data).wf(),
        final(f_data).forcedata == old(f_data).forcedata,
        match brute_spec(
            d_data.frame_spec(),
            old(p_data)@,
            ledisplace as int,
            all_pairs_spec(old(p_data).count()),
            all_pairs_spec(old(p_data).count()).len() as int,
            opening_brute_tally(old(p_data)@, *old(f_data)),
        ) {
            Some(t) => r.is_ok() && final(p_data)@ == (ParticleView {
                force: t.force,
                is_collision: t.is_collision,
                ..old(p_data)@
            }) && opening_brute_tally(final(p_data)@, *final(f_data)) == t,
            None => r.is_err() && final(p_data)@ == old(p_data)@ && opening_brute_tally(
                final(p_data)@,
                *final(f_data),
            ) == opening_brute_tally(old(p_data)@, *old(f_data)),
        },
{
    let frame: Frame = d_data.frame();
    let pairs: Vec<Pair> = all_pairs(p_data.radius.len());
    let ghost start = opening_brute_tally(p_data@, *f_data);
    let ghost before = p_data@;
    let mut force: Vec<Vec3> = p_data.force.clone();
    let mut marks: Vec<bool> = p_data.is_collision.clone();
    let mut found: Vec<(usize, usize)> = Vec::new();
    let mut forces: Vec<Vec3> = Vec::new();
    let mut dels: Vec<Vec3> = Vec::new();
    assert(force@ =~= p_data.force@);
    assert(marks@ =~= p_data.is_collision@);
    assert(start.particle_indexes + found@ =~= start.particle_indexes);
    assert(start.contact_force + forces@ =~= start.contact_force);
    assert(start.del + dels@ =~= start.del);
    let n: usize = pairs.len();
    let mut t: usize = 0;
    while t < n
        invariant
            p_data.wf(),
            p_data@ == before,
            before == old(p_data)@,
            *f_data == *old(f_data),
            frame == d_data.frame_spec(),
            start == opening_brute_tally(old(p_data)@, *old(f_data)),
            pairs@ == all_pairs_spec(old(p_data).count()),
            pairs_indexed(pairs@, p_data.count()),
            n == pairs@.len(),
            t <= n,
            force@.len() == p_data.count(),
            marks@.len() == p_data.count(),
            brute_spec(frame, before, ledisplace as int, pairs@, t as int, start) == Some(
                BruteTally {
                    force: force@,
                    is_collision: marks@,
                    particle_indexes: start.particle_indexes + found@,
                    contact_force: start.contact_force + forces@,
                    del: start.del + dels@,
                },
            ),
        decreases n - t,
    {
        let q: Pair = pairs[t];
        let touch: Option<Touch> = brute_touch(&frame, p_data, ledisplace, q.first, q.second);
        let entered: bool = match touch {
            None => false,
            Some(Touch::Apart) => true,
            Some(Touch::Pressing(f)) => {
                let mut unused: Vec<Mat3> = Vec::new();
                let ok: bool = enter_force(&mut force, &mut marks, &mut unused, q.first, q.second, &f);
                if ok {
                    let ghost found0 = found@;
                    let ghost forces0 = forces@;
                    let ghost dels0 = dels@;
                    found.push((q.first, q.second));
                    forces.push(f.force);
                    dels.push(f.delta);
                    assert(start.particle_indexes + found@ =~= (start.particle_indexes + found0).push(
                        (q.first, q.second),
                    ));
                    assert(start.contact_force + forces@ =~= (start.contact_force + forces0).push(f.force));
                    assert(start.del + dels@ =~= (start.del + dels0).push(f.delta));
                }
                ok
            },
        };
        if !entered {
            proof {
                assert(brute_spec(frame, before, ledisplace as int, pairs@, t + 1, start).is_none());
                lemma_brute_stuck(frame, before, ledisplace as int, pairs@, t + 1, n as int, start);
            }
            return Err(NumericError::OutOfRange);
        }
        t += 1;
    }
    p_data.force = force;
    p_data.is_collision = marks;
    f_data.particle_indexes.append(&mut found);
    f_data.force.append(&mut forces);
    f_data.del.append(&mut dels);
    Ok(())
}

} // verus!
