//! The periodic boundary, plain and sheared: an entity that has left the
//! domain through a face comes back in through the opposite one.
use vstd::prelude::*;
use crate::domain::{DomainData, Frame};
use crate::fixed::{NumericError, fits, narrow, fx_add, fx_sub, fx_mul, fx_mul_spec};
use crate::rigid_body::{RigidBodySphereData, Wrap3};
use crate::sphere::{ParticleData, ParticleView};
use crate::vector::Vec3;

verus! {

/// A coordinate taken back once into `(0, extent]`: one extent down where it is
/// above the extent, one extent up where it is not above zero.
pub open spec fn wrap_axis_spec(v: int, extent: int) -> int {
    if v > extent {
        v - extent
    } else if v <= 0 {
        v + extent
    } else {
        v
    }
}

/// A position wrapped on each axis by itself.
pub open spec fn wrap_position_spec(pos: Vec3, domain: Vec3) -> Vec3 {
    Vec3 {
        x: wrap_axis_spec(pos.x as int, domain.x as int) as i64,
        y: wrap_axis_spec(pos.y as int, domain.y as int) as i64,
        z: wrap_axis_spec(pos.z as int, domain.z as int) as i64,
    }
}

/// Every position of `after` is the wrapped position of `before`.
pub open spec fn all_wrapped(before: Seq<Vec3>, after: Seq<Vec3>, domain: Vec3) -> bool {
    &&& after.len() == before.len()
    &&& forall|i: int| 0 <= i < before.len() ==> #[trigger] after[i] == wrap_position_spec(before[i], domain)
}

/// The velocity jump across the sheared boundary: the shear rate times the
/// height of the domain.
pub open spec fn shear_jump_spec(d: Frame) -> Option<i64> {
    fx_mul_spec(d.lees_edwards_boundary as int, d.domain.y as int)
}

/// Position and velocity of an entity after the sheared boundary has been
/// applied. An entity above the upper `y` face comes back one height lower,
/// slower along `x` by the jump and displaced against the accumulated shear
/// offset; one not above the lower face the other way round. Then `x` and `z`
/// are wrapped as on a plain periodic boundary.
pub open spec fn sheared_wrap_spec(d: Frame, ledisplace: int, pos: Vec3, vel: Vec3) -> Option<
    (Vec3, Vec3),
> {
    let (y, vx, x) = if pos.y > d.domain.y {
        match (shear_jump_spec(d), narrow(pos.x - ledisplace)) {
            (Some(jump), Some(x1)) => {
                (
                    Some(pos.y - d.domain.y),
                    Some(vel.x - jump),
                    Some(
                        if x1 <= 0 {
                            x1 + d.domain.x
                        } else {
                            x1 as int
                        },
                    ),
                )
            },
            _ => (None, None, None),
        }
    } else if pos.y <= 0 {
        match (shear_jump_spec(d), narrow(pos.x + ledisplace)) {
            (Some(jump), Some(x1)) => {
                (
                    Some(pos.y + d.domain.y),
                    Some(vel.x + jump),
                    Some(
                        if x1 > d.domain.x {
                            x1 - d.domain.x
                        } else {
                            x1 as int
                        },
                    ),
                )
            },
            _ => (None, None, None),
        }
    } else {
        (Some(pos.y as int), Some(vel.x as int), Some(pos.x as int))
    };
    match (y, vx, x) {
        (Some(y), Some(vx), Some(x)) => {
            let x2 = wrap_axis_spec(x, d.domain.x as int);
            let z2 = wrap_axis_spec(pos.z as int, d.domain.z as int);
            if fits(y) && fits(vx) && fits(x) && fits(x2) && fits(z2) {
                Some(
                    (
                        Vec3 { x: x2 as i64, y: y as i64, z: z2 as i64 },
                        Vec3 { x: vx as i64, y: vel.y, z: vel.z },
                    ),
                )
            } else {
                None
            }
        },
        _ => None,
    }
}

/// Positions and velocities after the sheared boundary, for the first `upto`
/// entities; `None` where one of them has no representation.
pub open spec fn sheared_columns_spec(
    d: Frame,
    ledisplace: int,
    pos: Seq<Vec3>,
    vel: Seq<Vec3>,
    upto: int,
) -> Option<(Seq<Vec3>, Seq<Vec3>)>
    decreases upto,
{
    if upto <= 0 {
        Some((Seq::empty(), Seq::empty()))
    } else {
        match (
            sheared_columns_spec(d, ledisplace, pos, vel, upto - 1),
            sheared_wrap_spec(d, ledisplace, pos[upto - 1], vel[upto - 1]),
        ) {
            (Some((ps, vs)), Some((p, v))) => Some((ps.push(p), vs.push(v))),
            _ => None,
        }
    }
}

/// Once an entity has failed, the whole column has failed.
pub proof fn lemma_sheared_stuck(d: Frame, ledisplace: int, pos: Seq<Vec3>, vel: Seq<Vec3>, at: int, upto: int)
    requires
        0 <= at <= upto,
        sheared_columns_spec(d, ledisplace, pos, vel, at).is_none(),
    ensures
        sheared_columns_spec(d, ledisplace, pos, vel, upto).is_none(),
    decreases upto - at,
{
    if at < upto {
        lemma_sheared_stuck(d, ledisplace, pos, vel, at, upto - 1);
    }
}

pub fn wrap_axis(v: i64, extent: i64) -> (r: i64)
    requires
        extent > 0,
    ensures
        r == wrap_axis_spec(v as int, extent as int),
        0 < r || v + extent <= 0,
{
    if v > extent {
        v - extent
    } else if v <= 0 {
        v + extent
    } else {
        v
    }
}

pub fn wrap_position(pos: Vec3, domain: Vec3) -> (r: Vec3)
    requires
        domain.x > 0,
        domain.y > 0,
        domain.z > 0,
    ensures
        r == wrap_position_spec(pos, domain),
{
    Vec3 { x: wrap_axis(pos.x, domain.x), y: wrap_axis(pos.y, domain.y), z: wrap_axis(pos.z, domain.z) }
}

/// Takes every entity that has left the domain back in through the opposite
/// face, on each axis by itself.
pub fn relax_boundaries_box(d_data: &mut DomainData, p_data: &mut ParticleData)
    requires
        old(d_data).wf(),
        old(p_data).wf(),
    ensures
        *final(d_data) == *old(d_data),
        final(p_data).wf(),
        final(p_data)@ == (ParticleView { position: final(p_data)@.position, ..old(p_data)@ }),
        all_wrapped(old(p_data)@.position, final(p_data)@.position, final(d_data).domain),
{
    let n: usize = p_data.radius.len();
    let domain: Vec3 = d_data.domain;
    let mut i: usize = 0;
    while i < n
        invariant
            domain == d_data.domain,
            domain.x > 0,
            domain.y > 0,
            domain.z > 0,
            *d_data == *old(d_data),
            old(p_data).wf(),
            p_data.wf(),
            n == p_data.count(),
            i <= n,
            p_data@ == (ParticleView { position: p_data@.position, ..old(p_data)@ }),
            p_data.position@.len() == old(p_data).position@.len(),
            forall|a: int|
                0 <= a < i ==> #[trigger] p_data.position@[a] == wrap_position_spec(
                    old(p_data).position@[a],
                    domain,
                ),
            forall|a: int| i <= a < n ==> #[trigger] p_data.position@[a] == old(p_data).position@[a],
        decreases n - i,
    {
        let wrapped: Vec3 = wrap_position(p_data.position[i], domain);
        p_data.position[i] = wrapped;
        i += 1;
    }
}

pub fn sheared_wrap(d_data: &Frame, ledisplace: i64, pos: Vec3, vel: Vec3) -> (r: Option<(Vec3, Vec3)>)
    requires
        0 < d_data.domain.x,
        0 < d_data.domain.y,
        0 < d_data.domain.z,
    ensures
        r == sheared_wrap_spec(*d_data, ledisplace as int, pos, vel),
{
    let mut y: i64 = pos.y;
    let mut vx: i64 = vel.x;
    let mut x: i64 = pos.x;
    if pos.y > d_data.domain.y {
        let jump: i64 = fx_mul(d_data.lees_edwards_boundary, d_data.domain.y)?;
        y = pos.y - d_data.domain.y;
        let slower: Option<i64> = fx_sub(vel.x, jump);
        let moved: Option<i64> = fx_sub(pos.x, ledisplace);
        vx = slower?;
        let x1: i64 = moved?;
        x = if x1 <= 0 {
            x1 + d_data.domain.x
        } else {
            x1
        };
    } else if pos.y <= 0 {
        let jump: i64 = fx_mul(d_data.lees_edwards_boundary, d_data.domain.y)?;
        y = pos.y + d_data.domain.y;
        let faster: Option<i64> = fx_add(vel.x, jump);
        let moved: Option<i64> = fx_add(pos.x, ledisplace);
        vx = faster?;
        let x1: i64 = moved?;
        x = if x1 > d_data.domain.x {
            x1 - d_data.domain.x
        } else {
            x1
        };
    }
    let x2: i64 = wrap_axis(x, d_data.domain.x);
    let z2: i64 = wrap_axis(pos.z, d_data.domain.z);
    Some((Vec3 { x: x2, y, z: z2 }, Vec3 { x: vx, y: vel.y, z: vel.z }))
}

/// Applies the sheared periodic boundary to every entity. `ledisplace` is the
/// shear offset that has accumulated between the domain and its upper image.
///
/// Fails, and changes nothing, where a quantity has no `i64` representation.
pub fn lees_edwards_boundaries(d_data: &DomainData, p_data: &mut ParticleData, _dt: i64, ledisplace: i64) -> (r:
    Result<(), NumericError>)
    requires
        d_data.wf(),
        old(p_data).wf(),
    ensures
        final(p_data).wf(),
        match sheared_columns_spec(
            d_data.frame_spec(),
            ledisplace as int,
            old(p_data)@.position,
            old(p_data)@.velocity,
            old(p_data).count(),
        ) {
            Some((ps, vs)) => r.is_ok() && final(p_data)@ == (ParticleView {
                position: ps,
                velocity: vs,
                ..old(p_data)@
            }),
            None => r.is_err() && final(p_data)@ == old(p_data)@,
        },
{
    let n: usize = p_data.radius.len();
    let frame: Frame = d_data.frame();
    let mut positions: Vec<Vec3> = Vec::new();
    let mut velocities: Vec<Vec3> = Vec::new();
    let mut i: usize = 0;
    while i < n
        invariant
            d_data.wf(),
            frame == d_data.frame_spec(),
            p_data.wf(),
            p_data@ == old(p_data)@,
            n == p_data.count(),
            i <= n,
            positions@.len() == i,
            velocities@.len() == i,
            sheared_columns_spec(frame, ledisplace as int, p_data.position@, p_data.velocity@, i as int)
                == Some((positions@, velocities@)),
        decreases n - i,
    {
        match sheared_wrap(&frame, ledisplace, p_data.position[i], p_data.velocity[i]) {
            Some((p, v)) => {
                positions.push(p);
                velocities.push(v);
            },
            None => {
                proof {
                    assert(sheared_columns_spec(
                        frame,
                        ledisplace as int,
                        p_data.position@,
                        p_data.velocity@,
                        i + 1,
                    ).is_none());
                    lemma_sheared_stuck(
                        frame,
                        ledisplace as int,
                        p_data.position@,
                        p_data.velocity@,
                        i + 1,
                        n as int,
                    );
                }
                return Err(NumericError::OutOfRange);
            },
        }
        i += 1;
    }
    p_data.position = positions;
    p_data.velocity = velocities;
    Ok(())
}

/// How often a coordinate is taken across the boundary by one wrap, counted
/// in extents taken off: one where it was above the extent, minus one where
/// it was not above zero.
pub open spec fn wrap_count_spec(v: int, extent: int) -> int {
    if v > extent {
        1
    } else if v <= 0 {
        -1
    } else {
        0
    }
}

/// The counts of a position, axis by axis.
pub open spec fn wrap_counts_spec(pos: Vec3, domain: Vec3) -> Wrap3 {
    Wrap3 {
        x: wrap_count_spec(pos.x as int, domain.x as int) as i8,
        y: wrap_count_spec(pos.y as int, domain.y as int) as i8,
        z: wrap_count_spec(pos.z as int, domain.z as int) as i8,
    }
}

/// A wrapped position taken back to where it was before the wrap of the
/// counts `wrap`: on each axis, the count times the extent is put on again.
pub open spec fn unwrapped_spec(pos: Vec3, wrap: Wrap3, domain: Vec3) -> Option<Vec3> {
    let x = pos.x + wrap.x * domain.x;
    let y = pos.y + wrap.y * domain.y;
    let z = pos.z + wrap.z * domain.z;
    if fits(x) && fits(y) && fits(z) {
        Some(Vec3 { x: x as i64, y: y as i64, z: z as i64 })
    } else {
        None
    }
}

/// Unwrapping undoes the wrap: a position that was wrapped, taken back by the
/// counts of its wrap, is where it was.
pub proof fn lemma_unwrap_undoes_wrap(pos: Vec3, domain: Vec3)
    requires
        domain.x > 0,
        domain.y > 0,
        domain.z > 0,
    ensures
        unwrapped_spec(wrap_position_spec(pos, domain), wrap_counts_spec(pos, domain), domain) == Some(pos),
{
    lemma_axis_unwrap(pos.x as int, domain.x as int);
    lemma_axis_unwrap(pos.y as int, domain.y as int);
    lemma_axis_unwrap(pos.z as int, domain.z as int);
}

proof fn lemma_axis_unwrap(v: int, extent: int)
    ensures
        wrap_axis_spec(v, extent) + wrap_count_spec(v, extent) * extent == v,
{
    assert(1 * extent == extent && (-1) * extent == -extent && 0 * extent == 0) by (nonlinear_arith);
}

/// A position wrapped, and the counts of the wrap.
pub fn wrap_position_counted(pos: Vec3, domain: Vec3) -> (r: (Vec3, Wrap3))
    requires
        domain.x > 0,
        domain.y > 0,
        domain.z > 0,
    ensures
        r.0 == wrap_position_spec(pos, domain),
        r.1 == wrap_counts_spec(pos, domain),
{
    let wrapped: Vec3 = wrap_position(pos, domain);
    let x: i8 = if pos.x > domain.x { 1 } else if pos.x <= 0 { -1 } else { 0 };
    let y: i8 = if pos.y > domain.y { 1 } else if pos.y <= 0 { -1 } else { 0 };
    let z: i8 = if pos.z > domain.z { 1 } else if pos.z <= 0 { -1 } else { 0 };
    (wrapped, Wrap3 { x, y, z })
}

fn unwrapped_axis(v: i64, count: i8, extent: i64) -> (r: Option<i64>)
    ensures
        r == narrow(v + count * extent),
{
    assert(-128 * 0x8000_0000_0000_0000 <= count * extent <= 128 * 0x8000_0000_0000_0000) by (nonlinear_arith)
        requires
            -128 <= count <= 127,
            -0x8000_0000_0000_0000 <= extent <= 0x7fff_ffff_ffff_ffff,
    ;
    crate::fixed::to_i64(v as i128 + (count as i128) * (extent as i128))
}

/// A wrapped position taken back to where it was.
pub fn unwrapped(pos: Vec3, wrap: Wrap3, domain: Vec3) -> (r: Option<Vec3>)
    ensures
        r == unwrapped_spec(pos, wrap, domain),
{
    let x: Option<i64> = unwrapped_axis(pos.x, wrap.x, domain.x);
    let y: Option<i64> = unwrapped_axis(pos.y, wrap.y, domain.y);
    let z: Option<i64> = unwrapped_axis(pos.z, wrap.z, domain.z);
    let x: i64 = x?;
    let y: i64 = y?;
    let z: i64 = z?;
    Some(Vec3 { x, y, z })
}

impl RigidBodySphereData {
    /// Sphere `i` of `self` is sphere `i` of `before`, wrapped into the domain
    /// with the counts of the wrap on record.
    pub open spec fn sphere_wrapped(self, before: RigidBodySphereData, i: int, domain: Vec3) -> bool {
        &&& self.position@[i] == wrap_position_spec(before.position@[i], domain)
        &&& self.wrap@[i] == wrap_counts_spec(before.position@[i], domain)
    }

    /// Takes every sphere of the body that has left the domain back in through
    /// the opposite face, and records for every sphere how it was taken, so
    /// that the body can be put together again.
    pub fn wrap_spheres(&mut self, domain: Vec3)
        requires
            old(self).wf(),
            domain.x > 0,
            domain.y > 0,
            domain.z > 0,
        ensures
            final(self).wf(),
            *final(self) == (RigidBodySphereData {
                position: final(self).position,
                wrap: final(self).wrap,
                ..*old(self)
            }),
            forall|i: int| 0 <= i < old(self).count() ==> #[trigger] final(self).sphere_wrapped(*old(self), i, domain),
    {
        let n: usize = self.position.len();
        let mut i: usize = 0;
        while i < n
            invariant
                old(self).wf(),
                self.wf(),
                domain.x > 0,
                domain.y > 0,
                domain.z > 0,
                n == self.count(),
                i <= n,
                *self == (RigidBodySphereData { position: self.position, wrap: self.wrap, ..*old(self) }),
                forall|j: int| 0 <= j < i ==> #[trigger] self.sphere_wrapped(*old(self), j, domain),
                forall|j: int| i <= j < n ==> #[trigger] self.position@[j] == old(self).position@[j],
            decreases n - i,
        {
            let ghost mid = *self;
            let (wrapped, counts) = wrap_position_counted(self.position[i], domain);
            self.position[i] = wrapped;
            self.wrap[i] = counts;
            proof {
                assert forall|j: int| 0 <= j < i + 1 implies #[trigger] self.sphere_wrapped(
                    *old(self),
                    j,
                    domain,
                ) by {
                    if j < i {
                        assert(mid.sphere_wrapped(*old(self), j, domain));
                    }
                }
            }
            i += 1;
        }
    }

    /// The lever of sphere `i` about `center`: from `center` to where the
    /// sphere would be had it not been wrapped.
    pub open spec fn lever_arm_spec(self, i: int, center: Vec3, domain: Vec3) -> Option<Vec3> {
        match unwrapped_spec(self.position@[i], self.wrap@[i], domain) {
            Some(place) => place.minus_spec(center),
            None => None,
        }
    }

    /// The lever of sphere `i` about `center`.
    pub fn lever_arm(&self, i: usize, center: Vec3, domain: Vec3) -> (r: Option<Vec3>)
        requires
            self.wf(),
            i < self.count(),
        ensures
            r == self.lever_arm_spec(i as int, center, domain),
    {
        let place: Vec3 = unwrapped(self.position[i], self.wrap[i], domain)?;
        place.minus(&center)
    }
}

} // verus!
