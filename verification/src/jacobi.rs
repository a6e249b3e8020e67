//! The principal axes of a rigid body: the eigenvalues and eigenvectors of its
//! inertia tensor, by the cyclic Jacobi method.
use vstd::prelude::*;
use crate::fixed::{SCALE, fx_add, fx_div, fx_div_spec, fx_mul, fx_mul_spec, fx_sub, magnitude, mul_div,
    mul_div_spec, narrow, sqrt_mul, sqrt_mul_spec, to_i64};
use crate::rigid_body::{Axes, HALF_SCALE, RigidBodySphereData};
use crate::vector::{Mat3, Vec3};

verus! {

/// The most sweeps that the method may take.
pub const MAXJACOBI: u64 = 100;

/// How far apart two eigenvalue estimates must be, in units of the entry
/// between them, for the turn to be taken as small.
pub const SMALL_TURN: i64 = 2_000;

/// Why no principal axes were found.
#[derive(Clone, Copy, Debug, PartialEq, Eq, Structural)]
pub enum EigenError {
    /// The entries off the diagonal were not all zero after the last sweep.
    NotConverged,
    /// A quantity on the way has no `i64` representation.
    OutOfRange,
}

/// Eigenvectors, as the columns of `vectors`, and the eigenvalues that belong
/// to them.
#[derive(Clone, Copy, Debug, PartialEq, Eq, Structural)]
pub struct Eigen {
    pub vectors: Mat3,
    pub values: Vec3,
}

/// What the method carries from turn to turn: the tensor as turned so far,
/// the product of the turns, the eigenvalue estimates, their values at the
/// start of the sweep, and their changes within it.
#[derive(Clone, Copy, Debug, PartialEq, Eq, Structural)]
pub struct JacobiState {
    pub matrix: Mat3,
    pub vectors: Mat3,
    pub values: Vec3,
    pub b: Vec3,
    pub z: Vec3,
}

/// The state with which the method begins on `tensor`.
pub open spec fn opening_spec(tensor: Mat3) -> JacobiState {
    let diagonal = Vec3 { x: tensor.x.x, y: tensor.y.y, z: tensor.z.z };
    JacobiState {
        matrix: tensor,
        vectors: Mat3::identity_spec(),
        values: diagonal,
        b: diagonal,
        z: Vec3::zero_spec(),
    }
}

/// The sum of the magnitudes of the entries above the diagonal.
pub open spec fn off_diagonal_spec(m: Mat3) -> Option<i64> {
    narrow(magnitude(m.x.y as int) + magnitude(m.x.z as int) + magnitude(m.y.z as int))
}

/// Below what magnitude an entry is left alone in a sweep: a fifth of the
/// mean magnitude of all nine entries in the first three sweeps, nothing
/// after them.
pub open spec fn threshold_spec(sweep: int, sum: int) -> Option<i64> {
    if sweep < 4 {
        mul_div_spec(sum, 200_000, 9 * SCALE)
    } else {
        Some(0i64)
    }
}

/// One plane rotation applied to the entries `(i, j)` and `(k, l)` of
/// `matrix`: with `g` and `h` the two entries, the first becomes `g - s * (h
/// + g * tau)` and the second `h + s * (g - h * tau)`.
pub open spec fn rotation_spec(matrix: Mat3, i: int, j: int, k: int, l: int, s: int, tau: int) -> Option<Mat3> {
    let g = matrix.at_spec(i, j) as int;
    let h = matrix.at_spec(k, l) as int;
    match (fx_mul_spec(g, tau), fx_mul_spec(h, tau)) {
        (Some(gt), Some(ht)) => match (narrow(h + gt), narrow(g - ht)) {
            (Some(a), Some(b)) => match (fx_mul_spec(s, a as int), fx_mul_spec(s, b as int)) {
                (Some(sa), Some(sb)) => match (narrow(g - sa), narrow(h + sb)) {
                    (Some(first), Some(second)) => Some(matrix.with_spec(i, j, first).with_spec(k, l, second)),
                    _ => None,
                },
                _ => None,
            },
            _ => None,
        },
        _ => None,
    }
}

/// The turn that brings an entry to zero.
#[derive(Clone, Copy, Debug, PartialEq, Eq, Structural)]
pub struct Turn {
    /// The tangent of the angle.
    pub t: i64,
    /// Its sine.
    pub s: i64,
    /// `s / (1 + c)`, with `c` the cosine.
    pub tau: i64,
}

/// `sqrt(1 + x * x)`.
pub open spec fn hypotenuse_spec(x: int) -> Option<i64> {
    match fx_mul_spec(x, x) {
        Some(square) => match narrow(SCALE + square) {
            Some(sum) => sqrt_mul_spec(sum as int, SCALE as int),
            None => None,
        },
        None => None,
    }
}

/// The tangent of the turn that brings the entry `entry` between two
/// eigenvalue estimates `gap` apart to zero. Where the gap is at least
/// `SMALL_TURN` times the entry, the tangent is `entry / gap`; else, with
/// `theta = gap / (2 * entry)`, it is `1 / (|theta| + sqrt(1 + theta^2))`
/// with the sign of `theta`.
pub open spec fn tangent_spec(gap: int, entry: int) -> Option<i64> {
    if magnitude(gap) >= SMALL_TURN * magnitude(entry) {
        fx_div_spec(entry, gap)
    } else {
        match mul_div_spec(gap, HALF_SCALE as int, entry) {
            Some(theta) => match hypotenuse_spec(theta as int) {
                Some(root) => match narrow(magnitude(theta as int) + root) {
                    Some(den) => match fx_div_spec(SCALE as int, den as int) {
                        Some(t) => if theta < 0 {
                            narrow(-t)
                        } else {
                            Some(t)
                        },
                        None => None,
                    },
                    None => None,
                },
                None => None,
            },
            None => None,
        }
    }
}

/// The turn with the tangent `t`: `c = 1 / sqrt(1 + t^2)`, `s = t * c`, `tau
/// = s / (1 + c)`.
pub open spec fn turn_spec(t: int) -> Option<Turn> {
    match hypotenuse_spec(t) {
        Some(root) => match fx_div_spec(SCALE as int, root as int) {
            Some(c) => match (fx_mul_spec(t, c as int), narrow(SCALE + c)) {
                (Some(s), Some(den)) => match fx_div_spec(s as int, den as int) {
                    Some(tau) => Some(Turn { t: t as i64, s, tau }),
                    None => None,
                },
                _ => None,
            },
            None => None,
        },
        None => None,
    }
}

/// Which two entries above the diagonal a turn in the plane `(i, j)` mixes:
/// the two that are not `(i, j)` itself.
pub open spec fn mixed_spec(matrix: Mat3, i: int, j: int, s: int, tau: int) -> Option<Mat3> {
    if i == 0 && j == 1 {
        rotation_spec(matrix, 0, 2, 1, 2, s, tau)
    } else if i == 0 && j == 2 {
        rotation_spec(matrix, 0, 1, 1, 2, s, tau)
    } else {
        rotation_spec(matrix, 0, 1, 0, 2, s, tau)
    }
}

/// The turn in the plane `(i, j)` applied to the three rows of the product of
/// turns.
pub open spec fn turned_vectors_spec(vectors: Mat3, i: int, j: int, s: int, tau: int) -> Option<Mat3> {
    match rotation_spec(vectors, 0, i, 0, j, s, tau) {
        Some(v0) => match rotation_spec(v0, 1, i, 1, j, s, tau) {
            Some(v1) => rotation_spec(v1, 2, i, 2, j, s, tau),
            None => None,
        },
        None => None,
    }
}

/// The state after the entry `(i, j)` has been brought to zero by a turn.
pub open spec fn turned_spec(st: JacobiState, i: int, j: int) -> Option<JacobiState> {
    let entry = st.matrix.at_spec(i, j) as int;
    match narrow(st.values.at_spec(j) - st.values.at_spec(i)) {
        Some(gap) => match tangent_spec(gap as int, entry) {
            Some(t) => match (turn_spec(t as int), fx_mul_spec(t as int, entry)) {
                (Some(turn), Some(h)) => match (
                    narrow(st.z.at_spec(i) - h),
                    narrow(st.z.at_spec(j) + h),
                    narrow(st.values.at_spec(i) - h),
                    narrow(st.values.at_spec(j) + h),
                ) {
                    (Some(zi), Some(zj), Some(vi), Some(vj)) => match (
                        mixed_spec(st.matrix.with_spec(i, j, 0), i, j, turn.s as int, turn.tau as int),
                        turned_vectors_spec(st.vectors, i, j, turn.s as int, turn.tau as int),
                    ) {
                        (Some(matrix), Some(vectors)) => Some(
                            JacobiState {
                                matrix,
                                vectors,
                                values: st.values.with_spec(i, vi).with_spec(j, vj),
                                b: st.b,
                                z: st.z.with_spec(i, zi).with_spec(j, zj),
                            },
                        ),
                        _ => None,
                    },
                    _ => None,
                },
                _ => None,
            },
            None => None,
        },
        None => None,
    }
}

/// The state after the entry `(i, j)` has had its turn in a sweep: it is
/// brought to zero where its magnitude is above `threshold`, and left alone
/// else.
pub open spec fn element_spec(st: JacobiState, i: int, j: int, threshold: int) -> Option<JacobiState> {
    let entry = st.matrix.at_spec(i, j) as int;
    if magnitude(entry) > threshold {
        turned_spec(st, i, j)
    } else {
        Some(st)
    }
}

/// How a sweep ended.
#[derive(Clone, Copy, Debug, PartialEq, Eq, Structural)]
pub enum Sweep {
    /// The entries above the diagonal were all zero before it began.
    Done(JacobiState),
    /// The three entries have had their turns.
    Turned(JacobiState),
}

/// The state at the end of a sweep: the changes of the sweep are added to the
/// eigenvalue estimates of its start, and these are the estimates for the
/// next.
pub open spec fn closed_spec(st: JacobiState) -> Option<JacobiState> {
    match st.b.plus_spec(st.z) {
        Some(b) => Some(JacobiState { values: b, b, z: Vec3::zero_spec(), ..st }),
        None => None,
    }
}

/// Sweep number `sweep`, counted from one.
pub open spec fn sweep_spec(st: JacobiState, sweep: int) -> Option<Sweep> {
    match off_diagonal_spec(st.matrix) {
        Some(sum) => if sum == 0 {
            Some(Sweep::Done(st))
        } else {
            match threshold_spec(sweep, sum as int) {
                Some(threshold) => match element_spec(st, 0, 1, threshold as int) {
                    Some(s1) => match element_spec(s1, 0, 2, threshold as int) {
                        Some(s2) => match element_spec(s2, 1, 2, threshold as int) {
                            Some(s3) => match closed_spec(s3) {
                                Some(s4) => Some(Sweep::Turned(s4)),
                                None => None,
                            },
                            None => None,
                        },
                        None => None,
                    },
                    None => None,
                },
                None => None,
            }
        },
        None => None,
    }
}

/// The outcome of the method from sweep `sweep` on, with at most `last`
/// sweeps in all.
pub open spec fn jacobi_from_spec(st: JacobiState, sweep: int, last: int) -> Result<Eigen, EigenError>
    decreases last - sweep + 1,
{
    if sweep > last {
        Err(EigenError::NotConverged)
    } else {
        match sweep_spec(st, sweep) {
            Some(Sweep::Done(end)) => Ok(Eigen { vectors: end.vectors, values: end.values }),
            Some(Sweep::Turned(next)) => jacobi_from_spec(next, sweep + 1, last),
            None => Err(EigenError::OutOfRange),
        }
    }
}

/// Eigenvectors and eigenvalues of the symmetric tensor `tensor`, of which
/// the entries on and above the diagonal are read.
pub open spec fn jacobi_spec(tensor: Mat3) -> Result<Eigen, EigenError> {
    jacobi_from_spec(opening_spec(tensor), 1, MAXJACOBI as int)
}

fn off_diagonal(m: &Mat3) -> (r: Option<i64>)
    ensures
        r == off_diagonal_spec(*m),
{
    let a: i128 = if m.x.y < 0 { -(m.x.y as i128) } else { m.x.y as i128 };
    let b: i128 = if m.x.z < 0 { -(m.x.z as i128) } else { m.x.z as i128 };
    let c: i128 = if m.y.z < 0 { -(m.y.z as i128) } else { m.y.z as i128 };
    to_i64(a + b + c)
}

fn threshold(sweep: u64, sum: i64) -> (r: Option<i64>)
    ensures
        r == threshold_spec(sweep as int, sum as int),
{
    if sweep < 4 {
        mul_div(sum, 200_000, 9_000_000)
    } else {
        Some(0)
    }
}

/// One plane rotation on two entries of a tensor.
pub fn rotation(matrix: Mat3, i: usize, j: usize, k: usize, l: usize, s: i64, tau: i64) -> (r: Option<Mat3>)
    requires
        i < 3,
        j < 3,
        k < 3,
        l < 3,
    ensures
        r == rotation_spec(matrix, i as int, j as int, k as int, l as int, s as int, tau as int),
{
    let g: i64 = matrix.at(i, j);
    let h: i64 = matrix.at(k, l);
    let gt: Option<i64> = fx_mul(g, tau);
    let ht: Option<i64> = fx_mul(h, tau);
    let gt: i64 = gt?;
    let ht: i64 = ht?;
    let a: Option<i64> = fx_add(h, gt);
    let b: Option<i64> = fx_sub(g, ht);
    let a: i64 = a?;
    let b: i64 = b?;
    let sa: Option<i64> = fx_mul(s, a);
    let sb: Option<i64> = fx_mul(s, b);
    let sa: i64 = sa?;
    let sb: i64 = sb?;
    let first: Option<i64> = fx_sub(g, sa);
    let second: Option<i64> = fx_add(h, sb);
    let first: i64 = first?;
    let second: i64 = second?;
    Some(matrix.with(i, j, first).with(k, l, second))
}

fn hypotenuse(x: i64) -> (r: Option<i64>)
    ensures
        r == hypotenuse_spec(x as int),
{
    let square: i64 = fx_mul(x, x)?;
    let sum: i64 = fx_add(SCALE, square)?;
    sqrt_mul(sum, SCALE)
}

fn small_turn(gap: i64, entry: i64) -> (r: bool)
    ensures
        r == (magnitude(gap as int) >= SMALL_TURN * magnitude(entry as int)),
{
    let g: i128 = if gap < 0 { -(gap as i128) } else { gap as i128 };
    let e: i128 = if entry < 0 { -(entry as i128) } else { entry as i128 };
    g >= 2_000 * e
}

fn tangent(gap: i64, entry: i64) -> (r: Option<i64>)
    ensures
        r == tangent_spec(gap as int, entry as int),
{
    if small_turn(gap, entry) {
        fx_div(entry, gap)
    } else {
        let theta: i64 = mul_div(gap, HALF_SCALE, entry)?;
        let root: i64 = hypotenuse(theta)?;
        let wide: i128 = (if theta < 0 { -(theta as i128) } else { theta as i128 }) + root as i128;
        let den: i64 = to_i64(wide)?;
        let t: i64 = fx_div(SCALE, den)?;
        if theta < 0 {
            to_i64(-(t as i128))
        } else {
            Some(t)
        }
    }
}

fn turn(t: i64) -> (r: Option<Turn>)
    ensures
        r == turn_spec(t as int),
{
    let root: i64 = hypotenuse(t)?;
    let c: i64 = fx_div(SCALE, root)?;
    let s: Option<i64> = fx_mul(t, c);
    let den: Option<i64> = fx_add(SCALE, c);
    let s: i64 = s?;
    let den: i64 = den?;
    let tau: i64 = fx_div(s, den)?;
    Some(Turn { t, s, tau })
}

fn mixed(matrix: Mat3, i: usize, j: usize, s: i64, tau: i64) -> (r: Option<Mat3>)
    requires
        i < j < 3,
    ensures
        r == mixed_spec(matrix, i as int, j as int, s as int, tau as int),
{
    if i == 0 && j == 1 {
        rotation(matrix, 0, 2, 1, 2, s, tau)
    } else if i == 0 && j == 2 {
        rotation(matrix, 0, 1, 1, 2, s, tau)
    } else {
        rotation(matrix, 0, 1, 0, 2, s, tau)
    }
}

fn turned_vectors(vectors: Mat3, i: usize, j: usize, s: i64, tau: i64) -> (r: Option<Mat3>)
    requires
        i < 3,
        j < 3,
    ensures
        r == turned_vectors_spec(vectors, i as int, j as int, s as int, tau as int),
{
    let v0: Mat3 = rotation(vectors, 0, i, 0, j, s, tau)?;
    let v1: Mat3 = rotation(v0, 1, i, 1, j, s, tau)?;
    rotation(v1, 2, i, 2, j, s, tau)
}

fn turned(st: &JacobiState, i: usize, j: usize) -> (r: Option<JacobiState>)
    requires
        i < j < 3,
    ensures
        r == turned_spec(*st, i as int, j as int),
{
    let entry: i64 = st.matrix.at(i, j);
    let gap: i64 = fx_sub(st.values.at(j), st.values.at(i))?;
    let t: i64 = tangent(gap, entry)?;
    let found: Option<Turn> = turn(t);
    let h: Option<i64> = fx_mul(t, entry);
    let found: Turn = found?;
    let h: i64 = h?;
    let zi: Option<i64> = fx_sub(st.z.at(i), h);
    let zj: Option<i64> = fx_add(st.z.at(j), h);
    let vi: Option<i64> = fx_sub(st.values.at(i), h);
    let vj: Option<i64> = fx_add(st.values.at(j), h);
    let zi: i64 = zi?;
    let zj: i64 = zj?;
    let vi: i64 = vi?;
    let vj: i64 = vj?;
    let matrix: Option<Mat3> = mixed(st.matrix.with(i, j, 0), i, j, found.s, found.tau);
    let vectors: Option<Mat3> = turned_vectors(st.vectors, i, j, found.s, found.tau);
    let matrix: Mat3 = matrix?;
    let vectors: Mat3 = vectors?;
    Some(
        JacobiState {
            matrix,
            vectors,
            values: st.values.with(i, vi).with(j, vj),
            b: st.b,
            z: st.z.with(i, zi).with(j, zj),
        },
    )
}

fn above(entry: i64, threshold: i64) -> (r: bool)
    ensures
        r == (magnitude(entry as int) > threshold),
{
    let e: i128 = if entry < 0 { -(entry as i128) } else { entry as i128 };
    e > threshold as i128
}

fn element(st: &JacobiState, i: usize, j: usize, threshold: i64) -> (r: Option<JacobiState>)
    requires
        i < j < 3,
    ensures
        r == element_spec(*st, i as int, j as int, threshold as int),
{
    if above(st.matrix.at(i, j), threshold) {
        turned(st, i, j)
    } else {
        Some(*st)
    }
}

fn closed(st: &JacobiState) -> (r: Option<JacobiState>)
    ensures
        r == closed_spec(*st),
{
    let b: Vec3 = st.b.plus(&st.z)?;
    Some(JacobiState { matrix: st.matrix, vectors: st.vectors, values: b, b, z: Vec3::zero() })
}

fn sweep(st: &JacobiState, number: u64) -> (r: Option<Sweep>)
    ensures
        r == sweep_spec(*st, number as int),
{
    let sum: i64 = off_diagonal(&st.matrix)?;
    if sum == 0 {
        return Some(Sweep::Done(*st));
    }
    let limit: i64 = threshold(number, sum)?;
    let s1: JacobiState = element(st, 0, 1, limit)?;
    let s2: JacobiState = element(&s1, 0, 2, limit)?;
    let s3: JacobiState = element(&s2, 1, 2, limit)?;
    let s4: JacobiState = closed(&s3)?;
    Some(Sweep::Turned(s4))
}

/// Eigenvectors and eigenvalues of a symmetric tensor by the cyclic Jacobi
/// method with at most `last` sweeps: sweep after sweep, each entry above the
/// diagonal is brought to zero by a plane rotation, until all of them are
/// zero.
pub fn jacobi_within(tensor: &Mat3, last: u64) -> (r: Result<Eigen, EigenError>)
    requires
        last < u64::MAX,
    ensures
        r == jacobi_from_spec(opening_spec(*tensor), 1, last as int),
{
    let diagonal: Vec3 = Vec3 { x: tensor.x.x, y: tensor.y.y, z: tensor.z.z };
    let mut st: JacobiState = JacobiState {
        matrix: *tensor,
        vectors: Mat3::identity(),
        values: diagonal,
        b: diagonal,
        z: Vec3::zero(),
    };
    let mut number: u64 = 1;
    while number <= last
        invariant
            last < u64::MAX,
            1 <= number <= last + 1,
            jacobi_from_spec(opening_spec(*tensor), 1, last as int) == jacobi_from_spec(
                st,
                number as int,
                last as int,
            ),
        decreases last + 1 - number,
    {
        match sweep(&st, number) {
            Some(Sweep::Done(end)) => {
                return Ok(Eigen { vectors: end.vectors, values: end.values });
            },
            Some(Sweep::Turned(next)) => {
                st = next;
            },
            None => {
                return Err(EigenError::OutOfRange);
            },
        }
        number += 1;
    }
    Err(EigenError::NotConverged)
}

/// Eigenvectors and eigenvalues of a symmetric tensor by the cyclic Jacobi
/// method, with at most `MAXJACOBI` sweeps.
pub fn jacobi(tensor: &Mat3) -> (r: Result<Eigen, EigenError>)
    ensures
        r == jacobi_spec(*tensor),
{
    jacobi_within(tensor, MAXJACOBI)
}

/// Below what part of the greatest principal moment a principal moment counts
/// as none: one in ten million.
pub const NEGLIGIBLE: i64 = 10_000_000;

/// The greatest component.
pub open spec fn greatest_spec(v: Vec3) -> i64 {
    if v.x >= v.y && v.x >= v.z {
        v.x
    } else if v.y >= v.z {
        v.y
    } else {
        v.z
    }
}

/// A principal moment as it is kept: nothing where it is below the negligible
/// part of the greatest one.
pub open spec fn kept_spec(value: i64, floor: i64) -> i64 {
    if value < floor {
        0
    } else {
        value
    }
}

/// The principal moments and axes that an eigensystem gives. Moments below
/// the negligible part of the greatest are taken as none. The axes are the
/// eigenvectors; the third is reversed where the three would else be
/// left-handed, that is, where it points against the cross product of the
/// first two.
pub open spec fn principal_spec(e: Eigen) -> Option<(Vec3, Axes)> {
    let ex = Vec3 { x: e.vectors.x.x, y: e.vectors.y.x, z: e.vectors.z.x };
    let ey = Vec3 { x: e.vectors.x.y, y: e.vectors.y.y, z: e.vectors.z.y };
    let ez = Vec3 { x: e.vectors.x.z, y: e.vectors.y.z, z: e.vectors.z.z };
    match mul_div_spec(greatest_spec(e.values) as int, 1, NEGLIGIBLE as int) {
        Some(floor) => {
            let moments = Vec3 {
                x: kept_spec(e.values.x, floor),
                y: kept_spec(e.values.y, floor),
                z: kept_spec(e.values.z, floor),
            };
            match ex.cross_spec(ey) {
                Some(third) => match third.dot_spec(ez) {
                    Some(along) => if along < 0 {
                        match ez.times_spec(-1, 1) {
                            Some(reversed) => Some((moments, Axes { ex, ey, ez: reversed })),
                            None => None,
                        }
                    } else {
                        Some((moments, Axes { ex, ey, ez }))
                    },
                    None => None,
                },
                None => None,
            }
        },
        None => None,
    }
}

/// The principal moments and axes that an eigensystem gives.
pub fn principal(e: &Eigen) -> (r: Option<(Vec3, Axes)>)
    ensures
        r == principal_spec(*e),
{
    let ex: Vec3 = Vec3 { x: e.vectors.x.x, y: e.vectors.y.x, z: e.vectors.z.x };
    let ey: Vec3 = Vec3 { x: e.vectors.x.y, y: e.vectors.y.y, z: e.vectors.z.y };
    let ez: Vec3 = Vec3 { x: e.vectors.x.z, y: e.vectors.y.z, z: e.vectors.z.z };
    let v: Vec3 = e.values;
    let greatest: i64 = if v.x >= v.y && v.x >= v.z {
        v.x
    } else if v.y >= v.z {
        v.y
    } else {
        v.z
    };
    let floor: i64 = mul_div(greatest, 1, NEGLIGIBLE)?;
    let moments: Vec3 = Vec3 {
        x: if v.x < floor { 0 } else { v.x },
        y: if v.y < floor { 0 } else { v.y },
        z: if v.z < floor { 0 } else { v.z },
    };
    let third: Vec3 = ex.cross(&ey)?;
    let along: i64 = third.dot(&ez)?;
    if along < 0 {
        let reversed: Vec3 = ez.times(-1, 1)?;
        Some((moments, Axes { ex, ey, ez: reversed }))
    } else {
        Some((moments, Axes { ex, ey, ez }))
    }
}

/// The outcome of finding the principal axes of a body with the inertia
/// tensor `tensor`.
pub open spec fn eigen_system_spec(tensor: Mat3) -> Result<(Vec3, Axes), EigenError> {
    match jacobi_spec(tensor) {
        Ok(e) => match principal_spec(e) {
            Some(found) => Ok(found),
            None => Err(EigenError::OutOfRange),
        },
        Err(e) => Err(e),
    }
}

impl RigidBodySphereData {
    /// One plane rotation of the Jacobi method on two entries of `matrix`.
    pub fn roation_jacobi(&self, matrix: Mat3, i: usize, j: usize, k: usize, l: usize, s: i64, tau: i64) -> (r:
        Option<Mat3>)
        requires
            i < 3,
            j < 3,
            k < 3,
            l < 3,
        ensures
            r == rotation_spec(matrix, i as int, j as int, k as int, l as int, s as int, tau as int),
    {
        rotation(matrix, i, j, k, l, s, tau)
    }

    /// Eigenvectors and eigenvalues of the body's inertia tensor.
    pub fn get_jacobi(&self) -> (r: Result<Eigen, EigenError>)
        ensures
            r == jacobi_spec(self.local_inertia_tensor),
    {
        jacobi(&self.local_inertia_tensor)
    }

    /// Finds the principal axes of the body and records them with the
    /// principal moments.
    ///
    /// Fails, and changes nothing, where the method does not converge or a
    /// quantity has no `i64` representation.
    pub fn calculate_eigen_system(&mut self) -> (r: Result<(), EigenError>)
        ensures
            match eigen_system_spec(old(self).local_inertia_tensor) {
                Ok((moments, axes)) => r.is_ok() && *final(self) == (RigidBodySphereData {
                    diagonal_inertia: moments,
                    ex_space: axes.ex,
                    ey_space: axes.ey,
                    ez_space: axes.ez,
                    ..*old(self)
                }),
                Err(e) => r == Err::<(), EigenError>(e) && *final(self) == *old(self),
            },
    {
        let e: Eigen = self.get_jacobi()?;
        match principal(&e) {
            Some((moments, axes)) => {
                self.diagonal_inertia = moments;
                self.ex_space = axes.ex;
                self.ey_space = axes.ey;
                self.ez_space = axes.ez;
                Ok(())
            },
            None => Err(EigenError::OutOfRange),
        }
    }
}

} // verus!
