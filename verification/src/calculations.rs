//! Stress measures of the assembly: the kinetic tensor of the velocity
//! fluctuations and the tensor of the contact forces, each as a running
//! average over the cycles since the last reset.
use vstd::prelude::*;
use crate::contact::{outer, outer_spec};
use crate::domain::DomainData;
use crate::fixed::{SCALE, fx_add, narrow};
use crate::rigid_body::RigidBodiesData;
use crate::sphere::{ForceData, ParticleData};
use crate::vector::{Mat3, Vec3};

verus! {

/// The sum of the first `upto` vectors.
pub open spec fn vector_sum_spec(vs: Seq<Vec3>, upto: int) -> Option<Vec3>
    decreases upto,
{
    if upto <= 0 {
        Some(Vec3::zero_spec())
    } else {
        match vector_sum_spec(vs, upto - 1) {
            Some(s) => s.plus_spec(vs[upto - 1]),
            None => None,
        }
    }
}

/// The sum of the first `upto` tensors.
pub open spec fn tensor_sum_spec(ts: Seq<Mat3>, upto: int) -> Option<Mat3>
    decreases upto,
{
    if upto <= 0 {
        Some(Mat3::zero_spec())
    } else {
        match tensor_sum_spec(ts, upto - 1) {
            Some(s) => s.plus_spec(ts[upto - 1]),
            None => None,
        }
    }
}

/// The mean of the vectors; there is none of no vectors, nor of more than an
/// `i64` can count.
pub open spec fn mean_spec(vs: Seq<Vec3>) -> Option<Vec3> {
    if vs.len() > i64::MAX {
        None
    } else {
        match vector_sum_spec(vs, vs.len() as int) {
            Some(s) => s.times_spec(1, vs.len() as int),
            None => None,
        }
    }
}

/// What one entity adds to the kinetic tensor: its mass times the tensor
/// product of its velocity fluctuation with itself.
pub open spec fn fluctuation_spec(v: Vec3, mean: Vec3, mass: int) -> Option<Mat3> {
    match v.minus_spec(mean) {
        Some(dv) => match outer_spec(dv, dv) {
            Some(t) => t.times_spec(mass, SCALE as int),
            None => None,
        },
        None => None,
    }
}

/// The sum of the fluctuation tensors of the first `upto` entities.
pub open spec fn fluctuation_sum_spec(vs: Seq<Vec3>, ms: Seq<i64>, mean: Vec3, upto: int) -> Option<Mat3>
    decreases upto,
{
    if upto <= 0 {
        Some(Mat3::zero_spec())
    } else {
        match (
            fluctuation_sum_spec(vs, ms, mean, upto - 1),
            fluctuation_spec(vs[upto - 1], mean, ms[upto - 1] as int),
        ) {
            (Some(s), Some(t)) => s.plus_spec(t),
            _ => None,
        }
    }
}

/// The running average after one more sample: `(previous * count + fresh) /
/// (count + 1)`.
pub open spec fn averaged_spec(previous: Mat3, count: int, fresh: Mat3) -> Option<Mat3> {
    match (previous.times_spec(count, 1), narrow(count + 1)) {
        (Some(weighted), Some(next)) => match weighted.plus_spec(fresh) {
            Some(total) => total.times_spec(1, next as int),
            None => None,
        },
        _ => None,
    }
}

/// The kinetic tensor of the velocities `vs` of the masses `ms` in the volume
/// `volume`, averaged into `previous`, which stands for `count` samples.
pub open spec fn kinetic_tensor_spec(
    vs: Seq<Vec3>,
    ms: Seq<i64>,
    volume: int,
    previous: Mat3,
    count: int,
) -> Option<Mat3> {
    match mean_spec(vs) {
        Some(mean) => match fluctuation_sum_spec(vs, ms, mean, vs.len() as int) {
            Some(sum) => match sum.times_spec(SCALE as int, volume) {
                Some(fresh) => averaged_spec(previous, count, fresh),
                None => None,
            },
            None => None,
        },
        None => None,
    }
}

/// The tensor of the contact forces `ts` in the volume `volume`, averaged
/// into `previous`, which stands for `count` samples.
pub open spec fn collision_tensor_spec(ts: Seq<Mat3>, volume: int, previous: Mat3, count: int) -> Option<
    Mat3,
> {
    match tensor_sum_spec(ts, ts.len() as int) {
        Some(sum) => match sum.times_spec(SCALE as int, volume) {
            Some(fresh) => averaged_spec(previous, count, fresh),
            None => None,
        },
        None => None,
    }
}

/// Once a term has failed, the sum has failed.
proof fn lemma_vector_sum_stuck(vs: Seq<Vec3>, at: int, upto: int)
    requires
        0 <= at <= upto,
        vector_sum_spec(vs, at).is_none(),
    ensures
        vector_sum_spec(vs, upto).is_none(),
    decreases upto - at,
{
    if at < upto {
        lemma_vector_sum_stuck(vs, at, upto - 1);
    }
}

proof fn lemma_tensor_sum_stuck(ts: Seq<Mat3>, at: int, upto: int)
    requires
        0 <= at <= upto,
        tensor_sum_spec(ts, at).is_none(),
    ensures
        tensor_sum_spec(ts, upto).is_none(),
    decreases upto - at,
{
    if at < upto {
        lemma_tensor_sum_stuck(ts, at, upto - 1);
    }
}

proof fn lemma_fluctuation_sum_stuck(vs: Seq<Vec3>, ms: Seq<i64>, mean: Vec3, at: int, upto: int)
    requires
        0 <= at <= upto,
        fluctuation_sum_spec(vs, ms, mean, at).is_none(),
    ensures
        fluctuation_sum_spec(vs, ms, mean, upto).is_none(),
    decreases upto - at,
{
    if at < upto {
        lemma_fluctuation_sum_stuck(vs, ms, mean, at, upto - 1);
    }
}

pub fn vector_sum(vs: &Vec<Vec3>) -> (r: Option<Vec3>)
    ensures
        r == vector_sum_spec(vs@, vs@.len() as int),
{
    let n: usize = vs.len();
    let mut sum: Vec3 = Vec3::zero();
    let mut i: usize = 0;
    while i < n
        invariant
            n == vs@.len(),
            i <= n,
            vector_sum_spec(vs@, i as int) == Some(sum),
        decreases n - i,
    {
        match sum.plus(&vs[i]) {
            Some(s) => {
                sum = s;
            },
            None => {
                proof {
                    assert(vector_sum_spec(vs@, i + 1).is_none());
                    lemma_vector_sum_stuck(vs@, i + 1, n as int);
                }
                return None;
            },
        }
        i += 1;
    }
    Some(sum)
}

pub fn tensor_sum(ts: &Vec<Mat3>) -> (r: Option<Mat3>)
    ensures
        r == tensor_sum_spec(ts@, ts@.len() as int),
{
    let n: usize = ts.len();
    let mut sum: Mat3 = Mat3::zero();
    let mut i: usize = 0;
    while i < n
        invariant
            n == ts@.len(),
            i <= n,
            tensor_sum_spec(ts@, i as int) == Some(sum),
        decreases n - i,
    {
        match sum.plus(&ts[i]) {
            Some(s) => {
                sum = s;
            },
            None => {
                proof {
                    assert(tensor_sum_spec(ts@, i + 1).is_none());
                    lemma_tensor_sum_stuck(ts@, i + 1, n as int);
                }
                return None;
            },
        }
        i += 1;
    }
    Some(sum)
}

pub fn mean(vs: &Vec<Vec3>) -> (r: Option<Vec3>)
    ensures
        r == mean_spec(vs@),
{
    let n: usize = vs.len();
    if n as u64 > 0x7fff_ffff_ffff_ffffu64 {
        return None;
    }
    let sum: Vec3 = vector_sum(vs)?;
    sum.times(1, n as i64)
}

pub fn fluctuation(v: &Vec3, mean: &Vec3, mass: i64) -> (r: Option<Mat3>)
    ensures
        r == fluctuation_spec(*v, *mean, mass as int),
{
    let dv: Vec3 = v.minus(mean)?;
    let t: Mat3 = outer(dv, dv)?;
    t.times(mass, SCALE)
}

pub fn fluctuation_sum(vs: &Vec<Vec3>, ms: &Vec<i64>, mean: &Vec3) -> (r: Option<Mat3>)
    requires
        vs@.len() == ms@.len(),
    ensures
        r == fluctuation_sum_spec(vs@, ms@, *mean, vs@.len() as int),
{
    let n: usize = vs.len();
    let mut sum: Mat3 = Mat3::zero();
    let mut i: usize = 0;
    while i < n
        invariant
            n == vs@.len(),
            n == ms@.len(),
            i <= n,
            fluctuation_sum_spec(vs@, ms@, *mean, i as int) == Some(sum),
        decreases n - i,
    {
        let next: Option<Mat3> = match fluctuation(&vs[i], mean, ms[i]) {
            Some(t) => sum.plus(&t),
            None => None,
        };
        match next {
            Some(s) => {
                sum = s;
            },
            None => {
                proof {
                    assert(fluctuation_sum_spec(vs@, ms@, *mean, i + 1).is_none());
                    lemma_fluctuation_sum_stuck(vs@, ms@, *mean, i + 1, n as int);
                }
                return None;
            },
        }
        i += 1;
    }
    Some(sum)
}

pub fn averaged(previous: &Mat3, count: i64, fresh: &Mat3) -> (r: Option<Mat3>)
    ensures
        r == averaged_spec(*previous, count as int, *fresh),
{
    let weighted: Option<Mat3> = previous.times(count, 1);
    let next: Option<i64> = fx_add(count, 1);
    let weighted: Mat3 = weighted?;
    let next: i64 = next?;
    let total: Mat3 = weighted.plus(fresh)?;
    total.times(1, next)
}

/// The kinetic tensor of velocities and masses given as columns.
pub fn kinetic_tensor(vs: &Vec<Vec3>, ms: &Vec<i64>, volume: i64, previous: &Mat3, count: i64) -> (r:
    Option<Mat3>)
    requires
        vs@.len() == ms@.len(),
    ensures
        r == kinetic_tensor_spec(vs@, ms@, volume as int, *previous, count as int),
{
    let m: Vec3 = mean(vs)?;
    let sum: Mat3 = fluctuation_sum(vs, ms, &m)?;
    let fresh: Mat3 = sum.times(SCALE, volume)?;
    averaged(previous, count, &fresh)
}

/// The masses of the rigid bodies, as a column.
pub open spec fn body_masses_spec(p: RigidBodiesData) -> Seq<i64> {
    Seq::new(p.body_data@.len(), |i: int| p.body_data@[i].mass)
}

fn body_masses(p_data: &RigidBodiesData) -> (ms: Vec<i64>)
    ensures
        ms@ == body_masses_spec(*p_data),
{
    let n: usize = p_data.body_data.len();
    let mut ms: Vec<i64> = Vec::new();
    let mut i: usize = 0;
    while i < n
        invariant
            n == p_data.body_data@.len(),
            i <= n,
            ms@.len() == i,
            forall|j: int| 0 <= j < i ==> ms@[j] == p_data.body_data@[j].mass,
        decreases n - i,
    {
        ms.push(p_data.body_data[i].mass);
        i += 1;
    }
    assert(ms@ =~= body_masses_spec(*p_data));
    ms
}

/// The kinetic stress tensor of the rigid bodies: the sum over the bodies of
/// mass times the tensor product of the velocity fluctuation with itself,
/// over the volume of the domain, averaged into `kinetic_tensor`, which
/// stands for `average_reset_count` earlier cycles.
///
/// `None` where there is no body, the volume is zero, or a quantity has no
/// `i64` representation.
pub fn calc_kinetic_tensor(
    p_data: &RigidBodiesData,
    d_data: &DomainData,
    kinetic_tensor: Mat3,
    average_reset_count: i64,
) -> (r: Option<Mat3>)
    requires
        p_data.wf(),
    ensures
        r == kinetic_tensor_spec(
            p_data.velocity@,
            body_masses_spec(*p_data),
            d_data.domain_volume as int,
            kinetic_tensor,
            average_reset_count as int,
        ),
{
    let ms: Vec<i64> = body_masses(p_data);
    self::kinetic_tensor(&p_data.velocity, &ms, d_data.domain_volume, &kinetic_tensor, average_reset_count)
}

/// The kinetic stress tensor of single spheres, as `calc_kinetic_tensor` for
/// rigid bodies.
pub fn sphere_kinetic_tensor(
    p_data: &ParticleData,
    d_data: &DomainData,
    kinetic_tensor: Mat3,
    average_reset_count: i64,
) -> (r: Option<Mat3>)
    requires
        p_data.wf(),
    ensures
        r == kinetic_tensor_spec(
            p_data@.velocity,
            p_data@.mass,
            d_data.domain_volume as int,
            kinetic_tensor,
            average_reset_count as int,
        ),
{
    self::kinetic_tensor(
        &p_data.velocity,
        &p_data.mass,
        d_data.domain_volume,
        &kinetic_tensor,
        average_reset_count,
    )
}

/// The collision stress tensor: the sum of the force-times-separation tensors
/// of the contacts, over the volume of the domain, averaged into
/// `collision_tensor`, which stands for `average_reset_count` earlier cycles.
///
/// `None` where the volume is zero or a quantity has no `i64`
/// representation.
pub fn calc_collision_tensor(
    f_data: &ForceData,
    d_data: &DomainData,
    collision_tensor: Mat3,
    average_reset_count: i64,
) -> (r: Option<Mat3>)
    ensures
        r == collision_tensor_spec(
            f_data.forcedata@,
            d_data.domain_volume as int,
            collision_tensor,
            average_reset_count as int,
        ),
{
    let sum: Mat3 = tensor_sum(&f_data.forcedata)?;
    let fresh: Mat3 = sum.times(SCALE, d_data.domain_volume)?;
    averaged(&collision_tensor, average_reset_count, &fresh)
}

} // verus!
