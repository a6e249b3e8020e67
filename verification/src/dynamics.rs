//! Rotation of rigid bodies: the angular velocity that belongs to an angular
//! momentum, through the body's principal axes.
use vstd::prelude::*;
use crate::fixed::{NumericError, SCALE, fx_div, fx_div_spec, mul_div, mul_div_spec};
use crate::integrate::{drift, drift_spec, kick, kick_spec};
use crate::rigid_body::{Axes, RigidBodiesData, axes_of, axes_spec, to_space, to_space_spec};
use crate::rotation::{richardson, richardson_spec};
use crate::vector::{Quat, Vec3};

verus! {

/// The angular velocity about one principal axis: the momentum along the axis
/// over the moment of inertia about it, or nothing where the body has no
/// inertia about that axis.
pub open spec fn spin_about_spec(momentum: Vec3, axis: Vec3, inertia: int) -> Option<i64> {
    if inertia == 0 {
        Some(0i64)
    } else {
        match momentum.dot_spec(axis) {
            Some(along) => fx_div_spec(along as int, inertia),
            None => None,
        }
    }
}

/// The angular velocity in space of a body with the angular momentum
/// `momentum`, the principal axes `axes` and the principal moments `inertia`:
/// the momentum is taken along each axis, divided by the moment about it, and
/// the three spins are put together along the axes again.
pub open spec fn angmom_to_omega_spec(momentum: Vec3, axes: Axes, inertia: Vec3) -> Option<Vec3> {
    match (
        spin_about_spec(momentum, axes.ex, inertia.x as int),
        spin_about_spec(momentum, axes.ey, inertia.y as int),
        spin_about_spec(momentum, axes.ez, inertia.z as int),
    ) {
        (Some(x), Some(y), Some(z)) => to_space_spec(axes, Vec3 { x, y, z }),
        _ => None,
    }
}

pub fn spin_about(momentum: &Vec3, axis: &Vec3, inertia: i64) -> (r: Option<i64>)
    ensures
        r == spin_about_spec(*momentum, *axis, inertia as int),
{
    if inertia == 0 {
        Some(0)
    } else {
        let along: i64 = momentum.dot(axis)?;
        fx_div(along, inertia)
    }
}

/// The angular velocity that belongs to an angular momentum.
pub fn angmom_to_omega(momentum: &Vec3, axes: &Axes, inertia: &Vec3) -> (r: Option<Vec3>)
    ensures
        r == angmom_to_omega_spec(*momentum, *axes, *inertia),
{
    let x: Option<i64> = spin_about(momentum, &axes.ex, inertia.x);
    let y: Option<i64> = spin_about(momentum, &axes.ey, inertia.y);
    let z: Option<i64> = spin_about(momentum, &axes.ez, inertia.z);
    let x: i64 = x?;
    let y: i64 = y?;
    let z: i64 = z?;
    to_space(axes, &Vec3 { x, y, z })
}

/// How one rigid body moves and turns.
#[derive(Clone, Copy, Debug, PartialEq, Eq, Structural)]
pub struct BodyMotion {
    pub position: Vec3,
    pub velocity: Vec3,
    pub angular_moment: Vec3,
    pub omega: Vec3,
    pub quaternion: Quat,
    pub axes: Axes,
}

/// The angular momentum `momentum` after the torque `torque` has acted for
/// half of `dt`.
pub open spec fn twisted_spec(momentum: Vec3, torque: Vec3, dt: int) -> Option<Vec3> {
    match torque.times_spec(dt, 2 * SCALE) {
        Some(gain) => momentum.plus_spec(gain),
        None => None,
    }
}

/// A body after the first half step of `dt`: velocity and angular momentum
/// take half a kick from force and torque, the position moves for `dt`, the
/// angular velocity follows from the new angular momentum, the rotation is
/// carried on by Richardson's method, and the body axes are those of the new
/// rotation.
pub open spec fn body_initial_spec(b: BodyMotion, force: Vec3, torque: Vec3, mass: int, inertia: Vec3, dt: int) -> Option<
    BodyMotion,
> {
    match (kick_spec(b.velocity, force, mass, dt, 1, 2), twisted_spec(b.angular_moment, torque, dt)) {
        (Some(velocity), Some(angular_moment)) => match (
            drift_spec(b.position, velocity, dt),
            angmom_to_omega_spec(angular_moment, b.axes, inertia),
            mul_div_spec(dt, 1, 2),
        ) {
            (Some(position), Some(omega), Some(dtq)) => match richardson_spec(
                b.quaternion,
                angular_moment,
                omega,
                inertia,
                dtq as int,
            ) {
                Some(quaternion) => match axes_spec(quaternion) {
                    Some(axes) => Some(
                        BodyMotion { position, velocity, angular_moment, omega, quaternion, axes },
                    ),
                    None => None,
                },
                None => None,
            },
            _ => None,
        },
        _ => None,
    }
}

/// A body after the second half step of `dt`: velocity and angular momentum
/// take the other half kick, and the angular velocity follows. Position and
/// rotation stay.
pub open spec fn body_final_spec(b: BodyMotion, force: Vec3, torque: Vec3, mass: int, inertia: Vec3, dt: int) -> Option<
    BodyMotion,
> {
    match (kick_spec(b.velocity, force, mass, dt, 1, 2), twisted_spec(b.angular_moment, torque, dt)) {
        (Some(velocity), Some(angular_moment)) => match angmom_to_omega_spec(angular_moment, b.axes, inertia) {
            Some(omega) => Some(BodyMotion { velocity, angular_moment, omega, ..b }),
            None => None,
        },
        _ => None,
    }
}

pub fn twisted(momentum: &Vec3, torque: &Vec3, dt: i64) -> (r: Option<Vec3>)
    ensures
        r == twisted_spec(*momentum, *torque, dt as int),
{
    let gain: Vec3 = torque.times(dt, 2_000_000)?;
    momentum.plus(&gain)
}

/// One body through the first half step.
pub fn body_initial(b: &BodyMotion, force: &Vec3, torque: &Vec3, mass: i64, inertia: &Vec3, dt: i64) -> (r:
    Option<BodyMotion>)
    ensures
        r == body_initial_spec(*b, *force, *torque, mass as int, *inertia, dt as int),
{
    let velocity: Option<Vec3> = kick(&b.velocity, force, mass, dt, 1, 2);
    let angular_moment: Option<Vec3> = twisted(&b.angular_moment, torque, dt);
    let velocity: Vec3 = velocity?;
    let angular_moment: Vec3 = angular_moment?;
    let position: Option<Vec3> = drift(&b.position, &velocity, dt);
    let omega: Option<Vec3> = angmom_to_omega(&angular_moment, &b.axes, inertia);
    let dtq: Option<i64> = mul_div(dt, 1, 2);
    let position: Vec3 = position?;
    let omega: Vec3 = omega?;
    let dtq: i64 = dtq?;
    let quaternion: Quat = richardson(&b.quaternion, &angular_moment, &omega, inertia, dtq)?;
    let axes: Axes = axes_of(&quaternion)?;
    Some(BodyMotion { position, velocity, angular_moment, omega, quaternion, axes })
}

/// One body through the second half step.
pub fn body_final(b: &BodyMotion, force: &Vec3, torque: &Vec3, mass: i64, inertia: &Vec3, dt: i64) -> (r:
    Option<BodyMotion>)
    ensures
        r == body_final_spec(*b, *force, *torque, mass as int, *inertia, dt as int),
{
    let velocity: Option<Vec3> = kick(&b.velocity, force, mass, dt, 1, 2);
    let angular_moment: Option<Vec3> = twisted(&b.angular_moment, torque, dt);
    let velocity: Vec3 = velocity?;
    let angular_moment: Vec3 = angular_moment?;
    let omega: Vec3 = angmom_to_omega(&angular_moment, &b.axes, inertia)?;
    Some(
        BodyMotion {
            position: b.position,
            velocity,
            angular_moment,
            omega,
            quaternion: b.quaternion,
            axes: b.axes,
        },
    )
}

impl RigidBodiesData {
    /// How body `i` moves and turns.
    pub open spec fn motion_spec(self, i: int) -> BodyMotion {
        BodyMotion {
            position: self.position@[i],
            velocity: self.velocity@[i],
            angular_moment: self.angular_moment@[i],
            omega: self.omega@[i],
            quaternion: self.quaternion@[i],
            axes: Axes { ex: self.ex_space@[i], ey: self.ey_space@[i], ez: self.ez_space@[i] },
        }
    }

    /// Body `i` after a half step of `dt`, the first one where `first` is set.
    pub open spec fn stepped_spec(self, i: int, dt: int, first: bool) -> Option<BodyMotion> {
        if first {
            body_initial_spec(
                self.motion_spec(i),
                self.force@[i],
                self.torque@[i],
                self.body_data@[i].mass as int,
                self.diagonal_inertia@[i],
                dt,
            )
        } else {
            body_final_spec(
                self.motion_spec(i),
                self.force@[i],
                self.torque@[i],
                self.body_data@[i].mass as int,
                self.diagonal_inertia@[i],
                dt,
            )
        }
    }

    /// Every body can take the half step.
    pub open spec fn all_can_step(self, dt: int, first: bool) -> bool {
        forall|i: int| 0 <= i < self.count() ==> (#[trigger] self.stepped_spec(i, dt, first)).is_some()
    }

    /// `self` is `before` but for the motion of the bodies.
    pub open spec fn same_but_motion(self, before: RigidBodiesData) -> bool {
        self == (RigidBodiesData {
            position: self.position,
            velocity: self.velocity,
            angular_moment: self.angular_moment,
            omega: self.omega,
            quaternion: self.quaternion,
            ex_space: self.ex_space,
            ey_space: self.ey_space,
            ez_space: self.ez_space,
            ..before
        })
    }

    fn motion(&self, i: usize) -> (b: BodyMotion)
        requires
            self.wf(),
            i < self.count(),
        ensures
            b == self.motion_spec(i as int),
    {
        BodyMotion {
            position: self.position[i],
            velocity: self.velocity[i],
            angular_moment: self.angular_moment[i],
            omega: self.omega[i],
            quaternion: self.quaternion[i],
            axes: Axes { ex: self.ex_space[i], ey: self.ey_space[i], ez: self.ez_space[i] },
        }
    }

    /// Takes every body through a half step, all of them or none.
    fn half_step(&mut self, dt: i64, first: bool) -> (r: Result<(), NumericError>)
        requires
            old(self).wf(),
        ensures
            final(self).wf(),
            final(self).same_but_motion(*old(self)),
            old(self).all_can_step(dt as int, first) ==> r.is_ok() && forall|i: int|
                0 <= i < old(self).count() ==> old(self).stepped_spec(i, dt as int, first) == Some(
                    #[trigger] final(self).motion_spec(i),
                ),
            !old(self).all_can_step(dt as int, first) ==> r.is_err() && *final(self) == *old(self),
    {
        let n: usize = self.body_data.len();
        let mut batch: Vec<BodyMotion> = Vec::new();
        let mut i: usize = 0;
        while i < n
            invariant
                self.wf(),
                *self == *old(self),
                n == self.count(),
                i <= n,
                batch@.len() == i,
                forall|j: int|
                    0 <= j < i ==> self.stepped_spec(j, dt as int, first) == Some(#[trigger] batch@[j]),
            decreases n - i,
        {
            let b: BodyMotion = self.motion(i);
            let mass: i64 = self.body_data[i].mass;
            let next: Option<BodyMotion> = if first {
                body_initial(&b, &self.force[i], &self.torque[i], mass, &self.diagonal_inertia[i], dt)
            } else {
                body_final(&b, &self.force[i], &self.torque[i], mass, &self.diagonal_inertia[i], dt)
            };
            match next {
                Some(m) => {
                    batch.push(m);
                },
                None => {
                    assert(self.stepped_spec(i as int, dt as int, first).is_none());
                    return Err(NumericError::OutOfRange);
                },
            }
            i += 1;
        }
        assert(self.all_can_step(dt as int, first)) by {
            assert forall|j: int| 0 <= j < self.count() implies (#[trigger] self.stepped_spec(
                j,
                dt as int,
                first,
            )).is_some() by {
                assert(self.stepped_spec(j, dt as int, first) == Some(batch@[j]));
            }
        }
        let mut k: usize = 0;
        while k < n
            invariant
                old(self).wf(),
                self.wf(),
                self.same_but_motion(*old(self)),
                n == self.count(),
                k <= n,
                batch@.len() == n,
                forall|j: int|
                    0 <= j < n ==> old(self).stepped_spec(j, dt as int, first) == Some(#[trigger] batch@[j]),
                forall|j: int| 0 <= j < k ==> #[trigger] self.motion_spec(j) == batch@[j],
            decreases n - k,
        {
            let m: BodyMotion = batch[k];
            let ghost mid = *self;
            self.position[k] = m.position;
            self.velocity[k] = m.velocity;
            self.angular_moment[k] = m.angular_moment;
            self.omega[k] = m.omega;
            self.quaternion[k] = m.quaternion;
            self.ex_space[k] = m.axes.ex;
            self.ey_space[k] = m.axes.ey;
            self.ez_space[k] = m.axes.ez;
            proof {
                assert forall|j: int| 0 <= j < k + 1 implies #[trigger] self.motion_spec(j) == batch@[j] by {
                    if j < k {
                        assert(mid.motion_spec(j) == batch@[j]);
                    }
                }
            }
            k += 1;
        }
        proof {
            assert forall|j: int| 0 <= j < old(self).count() implies old(self).stepped_spec(
                j,
                dt as int,
                first,
            ) == Some(#[trigger] self.motion_spec(j)) by {
                assert(self.motion_spec(j) == batch@[j]);
            }
        }
        Ok(())
    }

    /// The first half step of every body: half a kick of velocity and angular
    /// momentum, the drift, the angular velocity of the new momentum, the
    /// rotation carried on, and the body axes of the new rotation.
    ///
    /// Fails, and changes nothing, where a quantity of some body has no `i64`
    /// representation or a body has no mass.
    pub fn initial_half_step(&mut self, dt: i64) -> (r: Result<(), NumericError>)
        requires
            old(self).wf(),
        ensures
            final(self).wf(),
            final(self).same_but_motion(*old(self)),
            old(self).all_can_step(dt as int, true) ==> r.is_ok() && forall|i: int|
                0 <= i < old(self).count() ==> old(self).stepped_spec(i, dt as int, true) == Some(
                    #[trigger] final(self).motion_spec(i),
                ),
            !old(self).all_can_step(dt as int, true) ==> r.is_err() && *final(self) == *old(self),
    {
        self.half_step(dt, true)
    }

    /// The second half step of every body: the other half kick of velocity
    /// and angular momentum, and the angular velocity that follows.
    ///
    /// Fails, and changes nothing, where a quantity of some body has no `i64`
    /// representation or a body has no mass.
    pub fn final_half_step(&mut self, dt: i64) -> (r: Result<(), NumericError>)
        requires
            old(self).wf(),
        ensures
            final(self).wf(),
            final(self).same_but_motion(*old(self)),
            old(self).all_can_step(dt as int, false) ==> r.is_ok() && forall|i: int|
                0 <= i < old(self).count() ==> old(self).stepped_spec(i, dt as int, false) == Some(
                    #[trigger] final(self).motion_spec(i),
                ),
            !old(self).all_can_step(dt as int, false) ==> r.is_err() && *final(self) == *old(self),
    {
        self.half_step(dt, false)
    }
}

} // verus!
