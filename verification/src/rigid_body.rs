//! Rigid bodies made of several spheres: the body frame, and where the
//! spheres of a body are in space.
use vstd::prelude::*;
use crate::fixed::{NumericError, SCALE, fits, narrow, trunc_div};
use crate::sphere::Material;
use crate::vector::{Mat3, Quat, Vec3, WideSum};

verus! {

/// Half of `SCALE`: a sum of products divided by it is twice the fixed-point
/// value of the sum.
pub const HALF_SCALE: i64 = 500_000;

/// How often a sphere was taken across the periodic boundary in a step, per
/// axis: -1, 0 or 1.
#[derive(Clone, Copy, Debug, PartialEq, Eq, Structural)]
pub struct Wrap3 {
    pub x: i8,
    pub y: i8,
    pub z: i8,
}

/// One rigid body: its spheres, in the body frame and in space, and its mass
/// properties.
#[derive(Debug, Clone, PartialEq)]
pub struct RigidBodySphereData {
    pub radius: Vec<i64>,
    pub position: Vec<Vec3>,
    pub local_position: Vec<Vec3>,
    pub velocity: Vec<Vec3>,
    pub wrap: Vec<Wrap3>,
    pub density: i64,
    pub mass: i64,
    pub volume: i64,
    pub local_inertia_tensor: Mat3,
    pub diagonal_inertia: Vec3,
    pub ex_space: Vec3,
    pub ey_space: Vec3,
    pub ez_space: Vec3,
}

/// The rigid bodies, one column per quantity.
#[derive(Debug, Clone, PartialEq)]
pub struct RigidBodiesData {
    pub max_radius: i64,
    pub body_data: Vec<RigidBodySphereData>,
    pub youngs_mod: Vec<i64>,
    pub poisson_ratio: Vec<i64>,
    pub position: Vec<Vec3>,
    pub velocity: Vec<Vec3>,
    pub force: Vec<Vec3>,
    pub moment_of_inertia_tensor: Vec<Mat3>,
    pub diagonal_inertia: Vec<Vec3>,
    pub quaternion: Vec<Quat>,
    pub omega: Vec<Vec3>,
    pub torque: Vec<Vec3>,
    pub angular_moment: Vec<Vec3>,
    pub ex_space: Vec<Vec3>,
    pub ey_space: Vec<Vec3>,
    pub ez_space: Vec<Vec3>,
    pub is_collision: Vec<bool>,
    pub materials: Vec<Material>,
    pub sphere_material: Vec<i32>,
    pub restitution_coefficient: i64,
    pub beta: i64,
    pub friction: i64,
    pub volume_fraction: i64,
}

/// The three axes of a body frame, as vectors in space.
#[derive(Clone, Copy, Debug, PartialEq, Eq, Structural)]
pub struct Axes {
    pub ex: Vec3,
    pub ey: Vec3,
    pub ez: Vec3,
}

/// The body axes that the rotation `q` gives: the columns of its rotation
/// matrix. Each entry is a sum of products of two components, divided once.
pub open spec fn axes_spec(q: Quat) -> Option<Axes> {
    let s = SCALE as int;
    let h = HALF_SCALE as int;
    let exx = trunc_div(q.w * q.w + q.x * q.x - q.y * q.y - q.z * q.z, s);
    let exy = trunc_div(q.x * q.y + q.w * q.z, h);
    let exz = trunc_div(q.x * q.z - q.w * q.y, h);
    let eyx = trunc_div(q.x * q.y - q.w * q.z, h);
    let eyy = trunc_div(q.w * q.w - q.x * q.x + q.y * q.y - q.z * q.z, s);
    let eyz = trunc_div(q.y * q.z + q.w * q.x, h);
    let ezx = trunc_div(q.x * q.z + q.w * q.y, h);
    let ezy = trunc_div(q.y * q.z - q.w * q.x, h);
    let ezz = trunc_div(q.w * q.w - q.x * q.x - q.y * q.y + q.z * q.z, s);
    if fits(exx) && fits(exy) && fits(exz) && fits(eyx) && fits(eyy) && fits(eyz) && fits(ezx) && fits(ezy)
        && fits(ezz) {
        Some(
            Axes {
                ex: Vec3 { x: exx as i64, y: exy as i64, z: exz as i64 },
                ey: Vec3 { x: eyx as i64, y: eyy as i64, z: eyz as i64 },
                ez: Vec3 { x: ezx as i64, y: ezy as i64, z: ezz as i64 },
            },
        )
    } else {
        None
    }
}

/// The vector with the components `l` in the frame `axes`, as a vector in
/// space: `l.x * ex + l.y * ey + l.z * ez`, each component rounded once.
pub open spec fn to_space_spec(axes: Axes, l: Vec3) -> Option<Vec3> {
    let s = SCALE as int;
    let x = trunc_div(axes.ex.x * l.x + axes.ey.x * l.y + axes.ez.x * l.z, s);
    let y = trunc_div(axes.ex.y * l.x + axes.ey.y * l.y + axes.ez.y * l.z, s);
    let z = trunc_div(axes.ex.z * l.x + axes.ey.z * l.y + axes.ez.z * l.z, s);
    if fits(x) && fits(y) && fits(z) {
        Some(Vec3 { x: x as i64, y: y as i64, z: z as i64 })
    } else {
        None
    }
}

/// Where a sphere of a body is and how it moves: the body's position plus the
/// sphere's place in the body frame turned into space, and the body's
/// velocity plus `omega x lever`, the lever being the sphere's place relative
/// to the body.
pub open spec fn sphere_state_spec(axes: Axes, position: Vec3, velocity: Vec3, omega: Vec3, local: Vec3) -> Option<
    (Vec3, Vec3),
> {
    match to_space_spec(axes, local) {
        Some(turned) => match position.plus_spec(turned) {
            Some(place) => match place.minus_spec(position) {
                Some(lever) => match omega.cross_spec(lever) {
                    Some(swing) => match velocity.plus_spec(swing) {
                        Some(speed) => Some((place, speed)),
                        None => None,
                    },
                    None => None,
                },
                None => None,
            },
            None => None,
        },
        None => None,
    }
}

/// The square terms `a*a + b*b - c*c - d*d` of a diagonal entry, divided by
/// `SCALE`.
fn diagonal_entry(a: i64, b: i64, c: i64, d: i64) -> (r: Option<i64>)
    ensures
        r == narrow(trunc_div(a * a + b * b - c * c - d * d, SCALE as int)),
{
    proof {
        assert(a * a >= 0) by (nonlinear_arith);
        assert(b * b >= 0) by (nonlinear_arith);
        assert(c * c >= 0) by (nonlinear_arith);
        assert(d * d >= 0) by (nonlinear_arith);
    }
    let s1: WideSum = WideSum::zero().with_product(a, a, false);
    let s2: WideSum = s1.with_product(b, b, false);
    let s3: WideSum = s2.with_product(c, c, true);
    let s4: WideSum = s3.with_product(d, d, true);
    s4.div(SCALE)
}

/// `(a*b + c*d) / HALF_SCALE`, or with the second product subtracted.
fn mixed_entry(a: i64, b: i64, c: i64, d: i64, subtract: bool) -> (r: Option<i64>)
    ensures
        r == narrow(
            trunc_div(
                if subtract {
                    a * b - c * d
                } else {
                    a * b + c * d
                },
                HALF_SCALE as int,
            ),
        ),
{
    WideSum::zero().with_product(a, b, false).with_product(c, d, subtract).div(HALF_SCALE)
}

/// The body axes of the rotation `q`.
pub fn axes_of(q: &Quat) -> (r: Option<Axes>)
    ensures
        r == axes_spec(*q),
{
    let exx: Option<i64> = diagonal_entry(q.w, q.x, q.y, q.z);
    let exy: Option<i64> = mixed_entry(q.x, q.y, q.w, q.z, false);
    let exz: Option<i64> = mixed_entry(q.x, q.z, q.w, q.y, true);
    let eyx: Option<i64> = mixed_entry(q.x, q.y, q.w, q.z, true);
    let eyy: Option<i64> = diagonal_entry(q.w, q.y, q.x, q.z);
    let eyz: Option<i64> = mixed_entry(q.y, q.z, q.w, q.x, false);
    let ezx: Option<i64> = mixed_entry(q.x, q.z, q.w, q.y, false);
    let ezy: Option<i64> = mixed_entry(q.y, q.z, q.w, q.x, true);
    let ezz: Option<i64> = diagonal_entry(q.w, q.z, q.x, q.y);
    let exx: i64 = exx?;
    let exy: i64 = exy?;
    let exz: i64 = exz?;
    let eyx: i64 = eyx?;
    let eyy: i64 = eyy?;
    let eyz: i64 = eyz?;
    let ezx: i64 = ezx?;
    let ezy: i64 = ezy?;
    let ezz: i64 = ezz?;
    Some(
        Axes {
            ex: Vec3 { x: exx, y: exy, z: exz },
            ey: Vec3 { x: eyx, y: eyy, z: eyz },
            ez: Vec3 { x: ezx, y: ezy, z: ezz },
        },
    )
}

/// Turns the components `l` in the frame `axes` into a vector in space.
pub fn to_space(axes: &Axes, l: &Vec3) -> (r: Option<Vec3>)
    ensures
        r == to_space_spec(*axes, *l),
{
    let x: Option<i64> = WideSum::zero().with_product(axes.ex.x, l.x, false).with_product(
        axes.ey.x,
        l.y,
        false,
    ).with_product(axes.ez.x, l.z, false).div(SCALE);
    let y: Option<i64> = WideSum::zero().with_product(axes.ex.y, l.x, false).with_product(
        axes.ey.y,
        l.y,
        false,
    ).with_product(axes.ez.y, l.z, false).div(SCALE);
    let z: Option<i64> = WideSum::zero().with_product(axes.ex.z, l.x, false).with_product(
        axes.ey.z,
        l.y,
        false,
    ).with_product(axes.ez.z, l.z, false).div(SCALE);
    let x: i64 = x?;
    let y: i64 = y?;
    let z: i64 = z?;
    Some(Vec3 { x, y, z })
}

/// Position and velocity of one sphere of a body.
pub fn sphere_state(axes: &Axes, position: &Vec3, velocity: &Vec3, omega: &Vec3, local: &Vec3) -> (r:
    Option<(Vec3, Vec3)>)
    ensures
        r == sphere_state_spec(*axes, *position, *velocity, *omega, *local),
{
    let turned: Vec3 = to_space(axes, local)?;
    let place: Vec3 = position.plus(&turned)?;
    let lever: Vec3 = place.minus(position)?;
    let swing: Vec3 = omega.cross(&lever)?;
    let speed: Vec3 = velocity.plus(&swing)?;
    Some((place, speed))
}

impl RigidBodySphereData {
    /// The number of spheres of the body.
    pub open spec fn count(self) -> int {
        self.radius@.len() as int
    }

    /// Well-formedness: every column has one entry per sphere.
    pub open spec fn wf(self) -> bool {
        &&& self.position@.len() == self.count()
        &&& self.local_position@.len() == self.count()
        &&& self.velocity@.len() == self.count()
        &&& self.wrap@.len() == self.count()
    }
}

/// Positions and velocities of the first `upto` spheres of a body whose frame
/// is `axes`; `None` where one of them has no representation.
pub open spec fn sphere_states_spec(
    axes: Axes,
    position: Vec3,
    velocity: Vec3,
    omega: Vec3,
    locals: Seq<Vec3>,
    upto: int,
) -> Option<(Seq<Vec3>, Seq<Vec3>)>
    decreases upto,
{
    if upto <= 0 {
        Some((Seq::empty(), Seq::empty()))
    } else {
        match (
            sphere_states_spec(axes, position, velocity, omega, locals, upto - 1),
            sphere_state_spec(axes, position, velocity, omega, locals[upto - 1]),
        ) {
            (Some((ps, vs)), Some((p, v))) => Some((ps.push(p), vs.push(v))),
            _ => None,
        }
    }
}

/// Once a sphere has failed, the body has failed.
pub proof fn lemma_sphere_states_stuck(
    axes: Axes,
    position: Vec3,
    velocity: Vec3,
    omega: Vec3,
    locals: Seq<Vec3>,
    at: int,
    upto: int,
)
    requires
        0 <= at <= upto,
        sphere_states_spec(axes, position, velocity, omega, locals, at).is_none(),
    ensures
        sphere_states_spec(axes, position, velocity, omega, locals, upto).is_none(),
    decreases upto - at,
{
    if at < upto {
        lemma_sphere_states_stuck(axes, position, velocity, omega, locals, at, upto - 1);
    }
}

impl RigidBodiesData {
    /// The number of bodies.
    pub open spec fn count(self) -> int {
        self.body_data@.len() as int
    }

    /// Well-formedness: every column has one entry per body, and every body is
    /// well-formed.
    pub open spec fn wf(self) -> bool {
        &&& self.youngs_mod@.len() == self.count()
        &&& self.poisson_ratio@.len() == self.count()
        &&& self.position@.len() == self.count()
        &&& self.velocity@.len() == self.count()
        &&& self.force@.len() == self.count()
        &&& self.moment_of_inertia_tensor@.len() == self.count()
        &&& self.diagonal_inertia@.len() == self.count()
        &&& self.quaternion@.len() == self.count()
        &&& self.omega@.len() == self.count()
        &&& self.torque@.len() == self.count()
        &&& self.angular_moment@.len() == self.count()
        &&& self.ex_space@.len() == self.count()
        &&& self.ey_space@.len() == self.count()
        &&& self.ez_space@.len() == self.count()
        &&& self.is_collision@.len() == self.count()
        &&& self.sphere_material@.len() == self.count()
        &&& forall|i: int| 0 <= i < self.count() ==> (#[trigger] self.body_data@[i]).wf()
    }

    /// Positions and velocities in space of the spheres of body `index`, from
    /// the body's position, rotation, velocity and angular velocity.
    pub open spec fn placed_spec(self, index: int) -> Option<(Seq<Vec3>, Seq<Vec3>)> {
        match axes_spec(self.quaternion@[index]) {
            Some(axes) => sphere_states_spec(
                axes,
                self.position@[index],
                self.velocity@[index],
                self.omega@[index],
                self.body_data@[index].local_position@,
                self.body_data@[index].count(),
            ),
            None => None,
        }
    }

    /// Body `index` of `self` is that of `before` with its spheres placed anew.
    pub open spec fn body_placed(self, before: RigidBodiesData, index: int) -> bool {
        let body = self.body_data@[index];
        &&& body == (RigidBodySphereData {
            position: body.position,
            velocity: body.velocity,
            ..before.body_data@[index]
        })
        &&& before.placed_spec(index) == Some((body.position@, body.velocity@))
    }

    /// `self` is `before` but for the bodies' own data.
    pub open spec fn same_columns(self, before: RigidBodiesData) -> bool {
        self == (RigidBodiesData { body_data: self.body_data, ..before })
    }

    /// The new sphere positions and velocities of one body, computed without
    /// changing anything.
    fn placed(&self, index: usize) -> (r: Option<(Vec<Vec3>, Vec<Vec3>)>)
        requires
            self.wf(),
            index < self.count(),
        ensures
            match self.placed_spec(index as int) {
                Some((ps, vs)) => r.is_some() && r.unwrap().0@ == ps && r.unwrap().1@ == vs
                    && ps.len() == self.body_data@[index as int].count() && vs.len() == ps.len(),
                None => r.is_none(),
            },
    {
        let axes: Axes = axes_of(&self.quaternion[index])?;
        let position: Vec3 = self.position[index];
        let velocity: Vec3 = self.velocity[index];
        let omega: Vec3 = self.omega[index];
        let body: &RigidBodySphereData = &self.body_data[index];
        assert(body.wf());
        let n: usize = body.local_position.len();
        let mut places: Vec<Vec3> = Vec::new();
        let mut speeds: Vec<Vec3> = Vec::new();
        let mut i: usize = 0;
        while i < n
            invariant
                self.wf(),
                index < self.count(),
                axes_spec(self.quaternion@[index as int]) == Some(axes),
                position == self.position@[index as int],
                velocity == self.velocity@[index as int],
                omega == self.omega@[index as int],
                *body == self.body_data@[index as int],
                n == body.local_position@.len(),
                n == body.count(),
                i <= n,
                places@.len() == i,
                speeds@.len() == i,
                sphere_states_spec(axes, position, velocity, omega, body.local_position@, i as int) == Some(
                    (places@, speeds@),
                ),
            decreases n - i,
        {
            match sphere_state(&axes, &position, &velocity, &omega, &body.local_position[i]) {
                Some((p, v)) => {
                    places.push(p);
                    speeds.push(v);
                },
                None => {
                    proof {
                        assert(sphere_states_spec(
                            axes,
                            position,
                            velocity,
                            omega,
                            body.local_position@,
                            i + 1,
                        ).is_none());
                        lemma_sphere_states_stuck(
                            axes,
                            position,
                            velocity,
                            omega,
                            body.local_position@,
                            i + 1,
                            n as int,
                        );
                    }
                    return None;
                },
            }
            i += 1;
        }
        Some((places, speeds))
    }

    /// Places the spheres of body `index` in space: each at the body's position
    /// plus its place in the body frame turned by the body's rotation, moving
    /// with the body's velocity plus the angular velocity crossed with its
    /// lever.
    ///
    /// Fails, and changes nothing, where a quantity has no `i64`
    /// representation.
    pub fn update_one_body_spheres_positions(&mut self, index: usize) -> (r: Result<(), NumericError>)
        requires
            old(self).wf(),
            index < old(self).count(),
        ensures
            final(self).wf(),
            final(self).same_columns(*old(self)),
            final(self).count() == old(self).count(),
            forall|j: int|
                0 <= j < old(self).count() && j != index ==> #[trigger] final(self).body_data@[j] == old(self).body_data@[j],
            match old(self).placed_spec(index as int) {
                Some(_) => r.is_ok() && final(self).body_placed(*old(self), index as int),
                None => r.is_err() && *final(self) == *old(self),
            },
    {
        match self.placed(index) {
            Some((places, speeds)) => {
                assert(self.body_data@[index as int].wf());
                self.body_data[index].position = places;
                self.body_data[index].velocity = speeds;
                proof {
                    assert forall|i: int| 0 <= i < self.count() implies (#[trigger] self.body_data@[i]).wf() by {
                        if i != index {
                            assert(self.body_data@[i] == old(self).body_data@[i]);
                            assert(old(self).body_data@[i].wf());
                        }
                    }
                }
                Ok(())
            },
            None => Err(NumericError::OutOfRange),
        }
    }

    /// The spheres of every body can be placed.
    pub open spec fn all_placeable(self) -> bool {
        forall|j: int| 0 <= j < self.count() ==> (#[trigger] self.placed_spec(j)).is_some()
    }

    /// Places the spheres of every body in space, as
    /// `update_one_body_spheres_positions` does for one.
    ///
    /// Fails, and changes nothing, where a quantity of some body has no `i64`
    /// representation.
    pub fn update_all_body_spheres_positions(&mut self) -> (r: Result<(), NumericError>)
        requires
            old(self).wf(),
        ensures
            final(self).wf(),
            final(self).same_columns(*old(self)),
            final(self).count() == old(self).count(),
            old(self).all_placeable() ==> r.is_ok() && forall|j: int|
                0 <= j < old(self).count() ==> #[trigger] final(self).body_placed(*old(self), j),
            !old(self).all_placeable() ==> r.is_err() && *final(self) == *old(self),
    {
        let n: usize = self.body_data.len();
        let mut batch: Vec<(Vec<Vec3>, Vec<Vec3>)> = Vec::new();
        let mut i: usize = 0;
        while i < n
            invariant
                self.wf(),
                *self == *old(self),
                n == self.count(),
                i <= n,
                batch@.len() == i,
                forall|j: int|
                    0 <= j < i ==> self.placed_spec(j) == Some(
                        ((#[trigger] batch@[j]).0@, batch@[j].1@),
                    ) && batch@[j].0@.len() == self.body_data@[j].count() && batch@[j].1@.len()
                        == self.body_data@[j].count(),
            decreases n - i,
        {
            match self.placed(i) {
                Some(pair) => {
                    batch.push(pair);
                },
                None => {
                    assert(self.placed_spec(i as int).is_none());
                    return Err(NumericError::OutOfRange);
                },
            }
            i += 1;
        }
        assert(self.all_placeable()) by {
            assert forall|j: int| 0 <= j < self.count() implies (#[trigger] self.placed_spec(j)).is_some() by {
                assert(self.placed_spec(j) == Some((batch@[j].0@, batch@[j].1@)));
            }
        }
        while i > 0
            invariant
                old(self).wf(),
                old(self).all_placeable(),
                self.same_columns(*old(self)),
                n == old(self).count(),
                self.count() == n,
                i <= n,
                batch@.len() == i,
                forall|j: int|
                    0 <= j < i ==> old(self).placed_spec(j) == Some(
                        ((#[trigger] batch@[j]).0@, batch@[j].1@),
                    ) && batch@[j].0@.len() == old(self).body_data@[j].count() && batch@[j].1@.len()
                        == old(self).body_data@[j].count(),
                forall|j: int| 0 <= j < i ==> #[trigger] self.body_data@[j] == old(self).body_data@[j],
                forall|j: int| i <= j < n ==> #[trigger] self.body_placed(*old(self), j),
                forall|j: int| 0 <= j < n ==> (#[trigger] self.body_data@[j]).wf(),
            decreases i,
        {
            i -= 1;
            let ghost prev = batch@;
            let ghost mid = *self;
            let ghost before = self.body_data@;
            let last: Option<(Vec<Vec3>, Vec<Vec3>)> = batch.pop();
            let (places, speeds) = last.unwrap();
            assert(places@ == prev[i as int].0@);
            assert(speeds@ == prev[i as int].1@);
            self.body_data[i].position = places;
            self.body_data[i].velocity = speeds;
            proof {
                assert(mid.body_data@[i as int] == old(self).body_data@[i as int]);
                assert(old(self).body_data@[i as int].wf());
                assert(self.body_placed(*old(self), i as int));
                assert forall|j: int| i <= j < n implies #[trigger] self.body_placed(*old(self), j) by {
                    if j != i {
                        assert(mid.body_placed(*old(self), j));
                        assert(self.body_data@[j] == before[j]);
                    }
                }
                assert forall|j: int| 0 <= j < n implies (#[trigger] self.body_data@[j]).wf() by {
                    if j != i {
                        assert(self.body_data@[j] == before[j]);
                        assert(mid.body_data@[j].wf());
                    }
                }
                assert forall|j: int| 0 <= j < i implies #[trigger] self.body_data@[j] == old(self).body_data@[j] by {
                    assert(self.body_data@[j] == before[j]);
                }
            }
        }
        Ok(())
    }

    /// Body `index` of `self` carries the axes that its rotation gives.
    pub open spec fn axes_set(self, index: int) -> bool {
        axes_spec(self.quaternion@[index]) == Some(
            Axes { ex: self.ex_space@[index], ey: self.ey_space@[index], ez: self.ez_space@[index] },
        )
    }

    /// `self` is `before` but for the three columns of body axes.
    pub open spec fn same_but_axes(self, before: RigidBodiesData) -> bool {
        self == (RigidBodiesData {
            ex_space: self.ex_space,
            ey_space: self.ey_space,
            ez_space: self.ez_space,
            ..before
        })
    }

    /// Sets the body axes of body `index` from its rotation.
    ///
    /// Fails, and changes nothing, where an entry has no `i64` representation.
    pub fn update_space_exyz_with_q(&mut self, index: usize) -> (r: Result<(), NumericError>)
        requires
            old(self).wf(),
            index < old(self).count(),
        ensures
            final(self).wf(),
            final(self).same_but_axes(*old(self)),
            match axes_spec(old(self).quaternion@[index as int]) {
                Some(a) => r.is_ok() && final(self).ex_space@ == old(self).ex_space@.update(index as int, a.ex)
                    && final(self).ey_space@ == old(self).ey_space@.update(index as int, a.ey)
                    && final(self).ez_space@ == old(self).ez_space@.update(index as int, a.ez),
                None => r.is_err() && *final(self) == *old(self),
            },
    {
        match axes_of(&self.quaternion[index]) {
            Some(a) => {
                self.ex_space[index] = a.ex;
                self.ey_space[index] = a.ey;
                self.ez_space[index] = a.ez;
                Ok(())
            },
            None => Err(NumericError::OutOfRange),
        }
    }

    /// The rotation of every body gives axes.
    pub open spec fn all_axes_exist(self) -> bool {
        forall|j: int| 0 <= j < self.count() ==> axes_spec(#[trigger] self.quaternion@[j]).is_some()
    }

    /// Sets the body axes of every body from its rotation.
    ///
    /// Fails, and changes nothing, where an entry of some body has no `i64`
    /// representation.
    pub fn update_all_space_exyz_with_q(&mut self) -> (r: Result<(), NumericError>)
        requires
            old(self).wf(),
        ensures
            final(self).wf(),
            final(self).same_but_axes(*old(self)),
            old(self).all_axes_exist() ==> r.is_ok() && forall|j: int|
                0 <= j < old(self).count() ==> #[trigger] final(self).axes_set(j),
            !old(self).all_axes_exist() ==> r.is_err() && *final(self) == *old(self),
    {
        let n: usize = self.body_data.len();
        let mut batch: Vec<Axes> = Vec::new();
        let mut i: usize = 0;
        while i < n
            invariant
                self.wf(),
                *self == *old(self),
                n == self.count(),
                i <= n,
                batch@.len() == i,
                forall|j: int| 0 <= j < i ==> axes_spec(self.quaternion@[j]) == Some(#[trigger] batch@[j]),
            decreases n - i,
        {
            match axes_of(&self.quaternion[i]) {
                Some(a) => {
                    batch.push(a);
                },
                None => {
                    assert(axes_spec(self.quaternion@[i as int]).is_none());
                    return Err(NumericError::OutOfRange);
                },
            }
            i += 1;
        }
        assert(self.all_axes_exist()) by {
            assert forall|j: int| 0 <= j < self.count() implies axes_spec(
                #[trigger] self.quaternion@[j],
            ).is_some() by {
                assert(axes_spec(self.quaternion@[j]) == Some(batch@[j]));
            }
        }
        let mut k: usize = 0;
        while k < n
            invariant
                self.wf(),
                self.same_but_axes(*old(self)),
                n == self.count(),
                k <= n,
                batch@.len() == n,
                forall|j: int| 0 <= j < n ==> axes_spec(self.quaternion@[j]) == Some(#[trigger] batch@[j]),
                forall|j: int| 0 <= j < k ==> #[trigger] self.axes_set(j),
            decreases n - k,
        {
            let a: Axes = batch[k];
            let ghost mid = *self;
            self.ex_space[k] = a.ex;
            self.ey_space[k] = a.ey;
            self.ez_space[k] = a.ez;
            proof {
                assert(axes_spec(self.quaternion@[k as int]) == Some(batch@[k as int]));
                assert forall|j: int| 0 <= j < k + 1 implies #[trigger] self.axes_set(j) by {
                    if j < k {
                        assert(mid.axes_set(j));
                    }
                }
            }
            k += 1;
        }
        Ok(())
    }
}

} // verus!
