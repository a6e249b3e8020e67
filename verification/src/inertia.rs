//! Mass properties of a rigid body made of overlapping spheres, estimated from
//! points sampled at random in its bounding box.
use vstd::prelude::*;
use crate::calculations::{vector_sum, vector_sum_spec};
use crate::fixed::{NumericError, SCALE, fits, fx_add, fx_mul, fx_mul_spec, fx_sub, mul_div,
    mul_div_spec, narrow, trunc_div};
use crate::rigid_body::RigidBodySphereData;
use crate::vector::{Mat3, Vec3, WideSum};

verus! {

/// The number of points that `initialize` samples.
pub const TRIALS: u64 = 100_000_000;

#[verifier::external_type_specification]
#[verifier::external_body]
pub struct ExThreadRng(rand::rngs::ThreadRng);

/// `rand::thread_rng`: the handle of the calling thread's random number
/// generator. Nothing is claimed of it.
#[verifier::external_body]
fn thread_generator() -> rand::rngs::ThreadRng {
    rand::thread_rng()
}

/// `rand::Rng::gen_range` on the half-open range `lo..hi`, which must not be
/// empty: the sample is at least `lo` and below `hi`. Which value comes is
/// left open.
#[verifier::external_body]
fn uniform_between(rng: &mut rand::rngs::ThreadRng, lo: i64, hi: i64) -> (r: i64)
    requires
        lo < hi,
    ensures
        lo <= r < hi,
{
    rand::Rng::gen_range(rng, lo..hi)
}

/// The lesser of two values.
pub open spec fn lesser(a: int, b: int) -> int {
    if b < a {
        b
    } else {
        a
    }
}

/// The greater of two values.
pub open spec fn greater(a: int, b: int) -> int {
    if b > a {
        b
    } else {
        a
    }
}

/// The box `(lo, hi)` grown to hold the sphere of radius `r` at `pos`.
pub open spec fn grown_spec(lo: Vec3, hi: Vec3, pos: Vec3, r: int) -> Option<(Vec3, Vec3)> {
    let lx = lesser(lo.x as int, pos.x - r);
    let ly = lesser(lo.y as int, pos.y - r);
    let lz = lesser(lo.z as int, pos.z - r);
    let hx = greater(hi.x as int, pos.x + r);
    let hy = greater(hi.y as int, pos.y + r);
    let hz = greater(hi.z as int, pos.z + r);
    if fits(pos.x - r) && fits(pos.y - r) && fits(pos.z - r) && fits(pos.x + r) && fits(pos.y + r) && fits(
        pos.z + r,
    ) {
        Some(
            (
                Vec3 { x: lx as i64, y: ly as i64, z: lz as i64 },
                Vec3 { x: hx as i64, y: hy as i64, z: hz as i64 },
            ),
        )
    } else {
        None
    }
}

/// The bounding box of the first `upto` spheres: it starts as the first centre
/// and grows to hold each sphere in turn.
pub open spec fn aabb_spec(positions: Seq<Vec3>, radii: Seq<i64>, upto: int) -> Option<(Vec3, Vec3)>
    decreases upto,
{
    if upto <= 0 {
        Some((positions[0], positions[0]))
    } else {
        match aabb_spec(positions, radii, upto - 1) {
            Some((lo, hi)) => grown_spec(lo, hi, positions[upto - 1], radii[upto - 1] as int),
            None => None,
        }
    }
}

proof fn lemma_aabb_stuck(positions: Seq<Vec3>, radii: Seq<i64>, at: int, upto: int)
    requires
        0 <= at <= upto,
        aabb_spec(positions, radii, at).is_none(),
    ensures
        aabb_spec(positions, radii, upto).is_none(),
    decreases upto - at,
{
    if at < upto {
        lemma_aabb_stuck(positions, radii, at, upto - 1);
    }
}

/// The bounding box holds every sphere it was grown for.
pub proof fn lemma_aabb_holds(positions: Seq<Vec3>, radii: Seq<i64>, upto: int, i: int)
    requires
        0 <= i < upto,
        aabb_spec(positions, radii, upto).is_some(),
    ensures
        ({
            let (lo, hi) = aabb_spec(positions, radii, upto).unwrap();
            &&& lo.x <= positions[i].x - radii[i] && positions[i].x + radii[i] <= hi.x
            &&& lo.y <= positions[i].y - radii[i] && positions[i].y + radii[i] <= hi.y
            &&& lo.z <= positions[i].z - radii[i] && positions[i].z + radii[i] <= hi.z
        }),
    decreases upto,
{
    if i < upto - 1 {
        lemma_aabb_holds(positions, radii, upto - 1, i);
    }
}

fn grown(lo: Vec3, hi: Vec3, pos: Vec3, r: i64) -> (b: Option<(Vec3, Vec3)>)
    ensures
        b == grown_spec(lo, hi, pos, r as int),
{
    let ax: Option<i64> = fx_sub(pos.x, r);
    let ay: Option<i64> = fx_sub(pos.y, r);
    let az: Option<i64> = fx_sub(pos.z, r);
    let bx: Option<i64> = fx_add(pos.x, r);
    let by: Option<i64> = fx_add(pos.y, r);
    let bz: Option<i64> = fx_add(pos.z, r);
    let ax: i64 = ax?;
    let ay: i64 = ay?;
    let az: i64 = az?;
    let bx: i64 = bx?;
    let by: i64 = by?;
    let bz: i64 = bz?;
    Some(
        (
            Vec3 {
                x: if ax < lo.x { ax } else { lo.x },
                y: if ay < lo.y { ay } else { lo.y },
                z: if az < lo.z { az } else { lo.z },
            },
            Vec3 {
                x: if bx > hi.x { bx } else { hi.x },
                y: if by > hi.y { by } else { hi.y },
                z: if bz > hi.z { bz } else { hi.z },
            },
        ),
    )
}

/// The point `p` lies in one of the first `upto` spheres: its distance from
/// the centre, rounded down, is below the radius. The spheres are tried in
/// order up to the first that holds the point.
pub open spec fn inside_spec(positions: Seq<Vec3>, radii: Seq<i64>, p: Vec3, upto: int) -> Option<bool>
    decreases upto,
{
    if upto <= 0 {
        Some(false)
    } else {
        match inside_spec(positions, radii, p, upto - 1) {
            Some(true) => Some(true),
            Some(false) => match p.minus_spec(positions[upto - 1]) {
                Some(d) => match d.norm_spec() {
                    Some(distance) => Some(distance < radii[upto - 1]),
                    None => None,
                },
                None => None,
            },
            None => None,
        }
    }
}

proof fn lemma_inside_settled(positions: Seq<Vec3>, radii: Seq<i64>, p: Vec3, at: int, upto: int)
    requires
        0 <= at <= upto,
        inside_spec(positions, radii, p, at) != Some(false),
    ensures
        inside_spec(positions, radii, p, upto) == inside_spec(positions, radii, p, at),
    decreases upto - at,
{
    if at < upto {
        lemma_inside_settled(positions, radii, p, at, upto - 1);
    }
}

/// Whether the point lies in one of the spheres.
pub fn inside(positions: &Vec<Vec3>, radii: &Vec<i64>, p: &Vec3) -> (r: Option<bool>)
    requires
        positions@.len() == radii@.len(),
    ensures
        r == inside_spec(positions@, radii@, *p, positions@.len() as int),
{
    let n: usize = positions.len();
    let mut j: usize = 0;
    while j < n
        invariant
            n == positions@.len(),
            n == radii@.len(),
            j <= n,
            inside_spec(positions@, radii@, *p, j as int) == Some(false),
        decreases n - j,
    {
        let found: Option<bool> = match p.minus(&positions[j]) {
            Some(d) => match d.norm() {
                Some(distance) => Some(distance < radii[j]),
                None => None,
            },
            None => None,
        };
        match found {
            Some(false) => {},
            other => {
                proof {
                    assert(inside_spec(positions@, radii@, *p, j + 1) == other);
                    lemma_inside_settled(positions@, radii@, *p, j + 1, n as int);
                }
                return other;
            },
        }
        j += 1;
    }
    Some(false)
}

/// The sums of second moments of the first `upto` points about `center`: for
/// each point at `(x, y, z)` from the centre, `y*y + z*z`, `x*x + z*z` and
/// `x*x + y*y` in the first vector, and `x*y`, `y*z` and `x*z` in the second.
pub open spec fn moments_spec(points: Seq<Vec3>, center: Vec3, upto: int) -> Option<(Vec3, Vec3)>
    decreases upto,
{
    if upto <= 0 {
        Some((Vec3::zero_spec(), Vec3::zero_spec()))
    } else {
        match (moments_spec(points, center, upto - 1), point_moments_spec(points[upto - 1], center)) {
            (Some((squares, mixed)), Some((s, m))) => match (squares.plus_spec(s), mixed.plus_spec(m)) {
                (Some(a), Some(b)) => Some((a, b)),
                _ => None,
            },
            _ => None,
        }
    }
}

/// The second moments of one point about `center`.
pub open spec fn point_moments_spec(point: Vec3, center: Vec3) -> Option<(Vec3, Vec3)> {
    match point.minus_spec(center) {
        Some(d) => {
            let s = SCALE as int;
            let sx = trunc_div(d.y * d.y + d.z * d.z, s);
            let sy = trunc_div(d.x * d.x + d.z * d.z, s);
            let sz = trunc_div(d.x * d.x + d.y * d.y, s);
            let mx = trunc_div(d.x * d.y, s);
            let my = trunc_div(d.y * d.z, s);
            let mz = trunc_div(d.x * d.z, s);
            if fits(sx) && fits(sy) && fits(sz) && fits(mx) && fits(my) && fits(mz) {
                Some(
                    (
                        Vec3 { x: sx as i64, y: sy as i64, z: sz as i64 },
                        Vec3 { x: mx as i64, y: my as i64, z: mz as i64 },
                    ),
                )
            } else {
                None
            }
        },
        None => None,
    }
}

proof fn lemma_moments_stuck(points: Seq<Vec3>, center: Vec3, at: int, upto: int)
    requires
        0 <= at <= upto,
        moments_spec(points, center, at).is_none(),
    ensures
        moments_spec(points, center, upto).is_none(),
    decreases upto - at,
{
    if at < upto {
        lemma_moments_stuck(points, center, at, upto - 1);
    }
}

fn point_moments(point: &Vec3, center: &Vec3) -> (r: Option<(Vec3, Vec3)>)
    ensures
        r == point_moments_spec(*point, *center),
{
    let d: Vec3 = point.minus(center)?;
    let sx: Option<i64> = WideSum::zero().with_product(d.y, d.y, false).with_product(d.z, d.z, false).div(
        SCALE,
    );
    let sy: Option<i64> = WideSum::zero().with_product(d.x, d.x, false).with_product(d.z, d.z, false).div(
        SCALE,
    );
    let sz: Option<i64> = WideSum::zero().with_product(d.x, d.x, false).with_product(d.y, d.y, false).div(
        SCALE,
    );
    let mx: Option<i64> = WideSum::zero().with_product(d.x, d.y, false).div(SCALE);
    let my: Option<i64> = WideSum::zero().with_product(d.y, d.z, false).div(SCALE);
    let mz: Option<i64> = WideSum::zero().with_product(d.x, d.z, false).div(SCALE);
    let sx: i64 = sx?;
    let sy: i64 = sy?;
    let sz: i64 = sz?;
    let mx: i64 = mx?;
    let my: i64 = my?;
    let mz: i64 = mz?;
    Some((Vec3 { x: sx, y: sy, z: sz }, Vec3 { x: mx, y: my, z: mz }))
}

fn moments(points: &Vec<Vec3>, center: &Vec3) -> (r: Option<(Vec3, Vec3)>)
    ensures
        r == moments_spec(points@, *center, points@.len() as int),
{
    let n: usize = points.len();
    let mut squares: Vec3 = Vec3::zero();
    let mut mixed: Vec3 = Vec3::zero();
    let mut i: usize = 0;
    while i < n
        invariant
            n == points@.len(),
            i <= n,
            moments_spec(points@, *center, i as int) == Some((squares, mixed)),
        decreases n - i,
    {
        let next: Option<(Vec3, Vec3)> = match point_moments(&points[i], center) {
            Some((s, m)) => match (squares.plus(&s), mixed.plus(&m)) {
                (Some(a), Some(b)) => Some((a, b)),
                _ => None,
            },
            None => None,
        };
        match next {
            Some((a, b)) => {
                squares = a;
                mixed = b;
            },
            None => {
                proof {
                    assert(moments_spec(points@, *center, i + 1).is_none());
                    lemma_moments_stuck(points@, *center, i + 1, n as int);
                }
                return None;
            },
        }
        i += 1;
    }
    Some((squares, mixed))
}

/// What sampling tells of a body: where its centre of mass is, its volume and
/// mass, and its inertia tensor about the centre of mass.
#[derive(Clone, Copy, Debug, PartialEq, Eq, Structural)]
pub struct MassProperties {
    pub center: Vec3,
    pub volume: i64,
    pub mass: i64,
    pub tensor: Mat3,
}

/// The inertia tensor that the sums of second moments give to `count` points
/// of the total mass `mass`, added to `start`: on the diagonal the sums of
/// squares, off it the negated mixed sums, each times the mass of one point,
/// `mass / count`. The product of a sum and the mass is divided once, by
/// `count * SCALE`.
pub open spec fn tensor_spec(start: Mat3, squares: Vec3, mixed: Vec3, mass: int, count: int) -> Option<Mat3> {
    match (squares.times_spec(mass, count * SCALE), mixed.times_spec(mass, count * SCALE)) {
        (Some(d), Some(o)) => if fits(count * SCALE) && negatable(o) {
            start.plus_spec(
                Mat3 {
                    x: Vec3 { x: d.x, y: (-o.x) as i64, z: (-o.z) as i64 },
                    y: Vec3 { x: (-o.x) as i64, y: d.y, z: (-o.y) as i64 },
                    z: Vec3 { x: (-o.z) as i64, y: (-o.y) as i64, z: d.z },
                },
            )
        } else {
            None
        },
        _ => None,
    }
}

/// No component is the least `i64`, which has no negative.
pub open spec fn negatable(v: Vec3) -> bool {
    v.x > i64::MIN && v.y > i64::MIN && v.z > i64::MIN
}

/// The mass properties that the points `points`, the ones of `trials` samples
/// of the box with the edges `length` that fell into the body, give to a body
/// of density `density` whose inertia tensor so far is `start`. The centre of
/// mass is the mean of the points; the volume is the part of the box that the
/// points make up; the mass is the volume times the density.
pub open spec fn mass_properties_spec(
    points: Seq<Vec3>,
    length: Vec3,
    trials: int,
    density: int,
    start: Mat3,
) -> Option<MassProperties> {
    if points.len() == 0 || points.len() > i64::MAX || trials <= 0 || trials > i64::MAX {
        None
    } else {
        let count = points.len() as int;
        match (
            vector_sum_spec(points, count),
            fx_mul_spec(length.x as int, length.y as int),
        ) {
            (Some(sum), Some(base)) => match (sum.times_spec(1, count), fx_mul_spec(base as int, length.z as int)) {
                (Some(center), Some(whole)) => match mul_div_spec(whole as int, count, trials) {
                    Some(volume) => match (fx_mul_spec(volume as int, density), moments_spec(points, center, count)) {
                        (Some(mass), Some((squares, mixed))) => match tensor_spec(
                            start,
                            squares,
                            mixed,
                            mass as int,
                            count,
                        ) {
                            Some(tensor) => Some(MassProperties { center, volume, mass, tensor }),
                            None => None,
                        },
                        _ => None,
                    },
                    None => None,
                },
                _ => None,
            },
            _ => None,
        }
    }
}

/// `count * SCALE`, where it fits.
fn to_wide_count(count: i64) -> (r: Option<i64>)
    ensures
        r == narrow(count * SCALE),
{
    crate::fixed::to_i64(count as i128 * 1_000_000)
}

fn tensor_of(start: &Mat3, squares: &Vec3, mixed: &Vec3, mass: i64, count: i64) -> (r: Option<Mat3>)
    ensures
        r == tensor_spec(*start, *squares, *mixed, mass as int, count as int),
{
    let share: i64 = match to_wide_count(count) {
        Some(c) => c,
        None => {
            return None;
        },
    };
    let d: Option<Vec3> = squares.times(mass, share);
    let o: Option<Vec3> = mixed.times(mass, share);
    let d: Vec3 = d?;
    let o: Vec3 = o?;
    if o.x == i64::MIN || o.y == i64::MIN || o.z == i64::MIN {
        return None;
    }
    start.plus(
        &Mat3 {
            x: Vec3 { x: d.x, y: -o.x, z: -o.z },
            y: Vec3 { x: -o.x, y: d.y, z: -o.y },
            z: Vec3 { x: -o.z, y: -o.y, z: d.z },
        },
    )
}

/// The mass properties that sampled points give.
pub fn mass_properties(points: &Vec<Vec3>, length: &Vec3, trials: u64, density: i64, start: &Mat3) -> (r:
    Option<MassProperties>)
    ensures
        r == mass_properties_spec(points@, *length, trials as int, density as int, *start),
{
    let n: usize = points.len();
    if n == 0 || n as u64 > 0x7fff_ffff_ffff_ffffu64 || trials == 0 || trials > 0x7fff_ffff_ffff_ffffu64 {
        return None;
    }
    let count: i64 = n as i64;
    let sum: Option<Vec3> = vector_sum(points);
    let base: Option<i64> = fx_mul(length.x, length.y);
    let sum: Vec3 = sum?;
    let base: i64 = base?;
    let center: Option<Vec3> = sum.times(1, count);
    let whole: Option<i64> = fx_mul(base, length.z);
    let center: Vec3 = center?;
    let whole: i64 = whole?;
    let volume: i64 = mul_div(whole, count, trials as i64)?;
    let mass: Option<i64> = fx_mul(volume, density);
    let sums: Option<(Vec3, Vec3)> = moments(points, &center);
    let mass: i64 = mass?;
    let (squares, mixed) = sums?;
    let tensor: Mat3 = tensor_of(start, &squares, &mixed, mass, count)?;
    Some(MassProperties { center, volume, mass, tensor })
}

/// The first `upto` vectors, each less `by`.
pub open spec fn shifted_spec(vs: Seq<Vec3>, by: Vec3, upto: int) -> Option<Seq<Vec3>>
    decreases upto,
{
    if upto <= 0 {
        Some(Seq::empty())
    } else {
        match (shifted_spec(vs, by, upto - 1), vs[upto - 1].minus_spec(by)) {
            (Some(done), Some(v)) => Some(done.push(v)),
            _ => None,
        }
    }
}

proof fn lemma_shifted_stuck(vs: Seq<Vec3>, by: Vec3, at: int, upto: int)
    requires
        0 <= at <= upto,
        shifted_spec(vs, by, at).is_none(),
    ensures
        shifted_spec(vs, by, upto).is_none(),
    decreases upto - at,
{
    if at < upto {
        lemma_shifted_stuck(vs, by, at, upto - 1);
    }
}

fn shifted(vs: &Vec<Vec3>, by: &Vec3) -> (r: Option<Vec<Vec3>>)
    ensures
        match shifted_spec(vs@, *by, vs@.len() as int) {
            Some(done) => r.is_some() && r.unwrap()@ == done && done.len() == vs@.len(),
            None => r.is_none(),
        },
{
    let n: usize = vs.len();
    let mut done: Vec<Vec3> = Vec::new();
    let mut i: usize = 0;
    while i < n
        invariant
            n == vs@.len(),
            i <= n,
            done@.len() == i,
            shifted_spec(vs@, *by, i as int) == Some(done@),
        decreases n - i,
    {
        match vs[i].minus(by) {
            Some(v) => {
                done.push(v);
            },
            None => {
                proof {
                    assert(shifted_spec(vs@, *by, i + 1).is_none());
                    lemma_shifted_stuck(vs@, *by, i + 1, n as int);
                }
                return None;
            },
        }
        i += 1;
    }
    Some(done)
}

/// What `initialize` learns of a body from sampled points: the mass
/// properties, and the places of its spheres, in space and in the body
/// frame, counted from the centre of mass.
pub struct Initialized {
    pub properties: MassProperties,
    pub position: Seq<Vec3>,
    pub local_position: Seq<Vec3>,
}

/// The outcome of initializing `body` with the density `density` from the
/// points `points`, the ones of `trials` samples of its bounding box that
/// fell into it.
pub open spec fn initialized_spec(body: RigidBodySphereData, density: int, points: Seq<Vec3>, trials: int) -> Option<
    Initialized,
> {
    match aabb_spec(body.position@, body.radius@, body.count()) {
        Some((lo, hi)) => match hi.minus_spec(lo) {
            Some(length) => match mass_properties_spec(points, length, trials, density, body.local_inertia_tensor) {
                Some(properties) => match (
                    shifted_spec(body.position@, properties.center, body.position@.len() as int),
                    shifted_spec(body.local_position@, properties.center, body.local_position@.len() as int),
                ) {
                    (Some(position), Some(local_position)) => Some(
                        Initialized { properties, position, local_position },
                    ),
                    _ => None,
                },
                None => None,
            },
            None => None,
        },
        None => None,
    }
}

/// `after` is `before` initialized as `outcome` says, with the density
/// `density`.
pub open spec fn initialized_as(
    after: RigidBodySphereData,
    before: RigidBodySphereData,
    density: i64,
    outcome: Initialized,
) -> bool {
    &&& after == (RigidBodySphereData {
        position: after.position,
        local_position: after.local_position,
        density,
        mass: outcome.properties.mass,
        volume: outcome.properties.volume,
        local_inertia_tensor: outcome.properties.tensor,
        diagonal_inertia: Vec3 {
            x: outcome.properties.tensor.x.x,
            y: outcome.properties.tensor.y.y,
            z: outcome.properties.tensor.z.z,
        },
        ..before
    })
    &&& after.position@ == outcome.position
    &&& after.local_position@ == outcome.local_position
}

/// Every one of the points lies in the box `[lo, hi)` and in one of the
/// spheres, and there are at most `trials` of them.
pub open spec fn sampled_from(
    positions: Seq<Vec3>,
    radii: Seq<i64>,
    lo: Vec3,
    hi: Vec3,
    points: Seq<Vec3>,
    trials: int,
) -> bool {
    &&& points.len() <= trials
    &&& forall|t: int|
        0 <= t < points.len() ==> {
            let p = #[trigger] points[t];
            &&& lo.x <= p.x < hi.x
            &&& lo.y <= p.y < hi.y
            &&& lo.z <= p.z < hi.z
            &&& inside_spec(positions, radii, p, positions.len() as int) == Some(true)
        }
}

/// The point `p` lies in the box `[lo, hi)`.
pub open spec fn in_box(lo: Vec3, hi: Vec3, p: Vec3) -> bool {
    &&& lo.x <= p.x < hi.x
    &&& lo.y <= p.y < hi.y
    &&& lo.z <= p.z < hi.z
}

/// `samples` are `trials` points of the box `[lo, hi)`.
pub open spec fn drawn_from(lo: Vec3, hi: Vec3, samples: Seq<Vec3>, trials: int) -> bool {
    &&& samples.len() == trials
    &&& forall|t: int| 0 <= t < samples.len() ==> in_box(lo, hi, #[trigger] samples[t])
}

/// Of the first `upto` samples, the ones that lie in a sphere, in the order in
/// which they were drawn; `None` where the test of one of them has no `i64`
/// representation.
pub open spec fn kept_spec(positions: Seq<Vec3>, radii: Seq<i64>, samples: Seq<Vec3>, upto: int) -> Option<
    Seq<Vec3>,
>
    decreases upto,
{
    if upto <= 0 {
        Some(Seq::empty())
    } else {
        match (
            kept_spec(positions, radii, samples, upto - 1),
            inside_spec(positions, radii, samples[upto - 1], positions.len() as int),
        ) {
            (Some(kept), Some(true)) => Some(kept.push(samples[upto - 1])),
            (Some(kept), Some(false)) => Some(kept),
            _ => None,
        }
    }
}

/// Every point of the box `[lo, hi)` can be tested against the spheres.
pub open spec fn testable(positions: Seq<Vec3>, radii: Seq<i64>, lo: Vec3, hi: Vec3) -> bool {
    forall|p: Vec3| #[trigger] in_box(lo, hi, p) ==> inside_spec(positions, radii, p, positions.len() as int).is_some()
}

/// Once the test of a sample has failed, the sampling has failed.
proof fn lemma_kept_stuck(positions: Seq<Vec3>, radii: Seq<i64>, samples: Seq<Vec3>, at: int, upto: int)
    requires
        0 <= at <= upto,
        kept_spec(positions, radii, samples, at).is_none(),
    ensures
        kept_spec(positions, radii, samples, upto).is_none(),
    decreases upto - at,
{
    if at < upto {
        lemma_kept_stuck(positions, radii, samples, at, upto - 1);
    }
}

/// What is kept of the first samples does not depend on the later ones.
proof fn lemma_kept_agree(positions: Seq<Vec3>, radii: Seq<i64>, s1: Seq<Vec3>, s2: Seq<Vec3>, upto: int)
    requires
        forall|i: int| 0 <= i < upto ==> s1[i] == s2[i],
    ensures
        kept_spec(positions, radii, s1, upto) == kept_spec(positions, radii, s2, upto),
    decreases upto,
{
    if upto > 0 {
        lemma_kept_agree(positions, radii, s1, s2, upto - 1);
    }
}

/// The points that are kept of samples of the box lie in the box and in a
/// sphere, and there are no more of them than samples.
pub proof fn lemma_kept_are_inside(
    positions: Seq<Vec3>,
    radii: Seq<i64>,
    lo: Vec3,
    hi: Vec3,
    samples: Seq<Vec3>,
    upto: int,
)
    requires
        0 <= upto <= samples.len(),
        forall|t: int| 0 <= t < samples.len() ==> in_box(lo, hi, #[trigger] samples[t]),
        kept_spec(positions, radii, samples, upto).is_some(),
    ensures
        sampled_from(positions, radii, lo, hi, kept_spec(positions, radii, samples, upto).unwrap(), upto),
    decreases upto,
{
    if upto > 0 {
        lemma_kept_are_inside(positions, radii, lo, hi, samples, upto - 1);
        let before = kept_spec(positions, radii, samples, upto - 1).unwrap();
        let kept = kept_spec(positions, radii, samples, upto).unwrap();
        assert(in_box(lo, hi, samples[upto - 1]));
        assert forall|t: int| 0 <= t < kept.len() implies {
            let p = #[trigger] kept[t];
            &&& lo.x <= p.x < hi.x
            &&& lo.y <= p.y < hi.y
            &&& lo.z <= p.z < hi.z
            &&& inside_spec(positions, radii, p, positions.len() as int) == Some(true)
        } by {
            if t < before.len() {
                assert(kept[t] == before[t]);
            }
        }
    }
}

/// Draws `trials` points of the box `[lo, hi)` at random and keeps the ones
/// that fall into a sphere, in the order in which they were drawn. Which
/// points are drawn is left to chance. `None` where the test of a point that
/// was drawn has no `i64` representation; that cannot be where every point
/// of the box can be tested.
fn sample_inside(positions: &Vec<Vec3>, radii: &Vec<i64>, lo: Vec3, hi: Vec3, trials: u64) -> (r: Option<
    Vec<Vec3>,
>)
    requires
        positions@.len() == radii@.len(),
        lo.x < hi.x,
        lo.y < hi.y,
        lo.z < hi.z,
    ensures
        exists|samples: Seq<Vec3>| #[trigger]
            drawn_from(lo, hi, samples, trials as int) && (match kept_spec(
                positions@,
                radii@,
                samples,
                trials as int,
            ) {
                Some(kept) => r.is_some() && r.unwrap()@ == kept,
                None => r.is_none(),
            }),
        testable(positions@, radii@, lo, hi) ==> r.is_some(),
{
    let mut rng = thread_generator();
    let mut points: Vec<Vec3> = Vec::new();
    let ghost mut drawn: Seq<Vec3> = Seq::empty();
    let mut t: u64 = 0;
    while t < trials
        invariant
            positions@.len() == radii@.len(),
            lo.x < hi.x,
            lo.y < hi.y,
            lo.z < hi.z,
            t <= trials,
            drawn_from(lo, hi, drawn, t as int),
            kept_spec(positions@, radii@, drawn, t as int) == Some(points@),
        decreases trials - t,
    {
        let x: i64 = uniform_between(&mut rng, lo.x, hi.x);
        let y: i64 = uniform_between(&mut rng, lo.y, hi.y);
        let z: i64 = uniform_between(&mut rng, lo.z, hi.z);
        let p: Vec3 = Vec3 { x, y, z };
        let ghost before = drawn;
        proof {
            drawn = before.push(p);
            assert(in_box(lo, hi, p));
            assert(drawn_from(lo, hi, drawn, t + 1)) by {
                assert forall|k: int| 0 <= k < drawn.len() implies in_box(lo, hi, #[trigger] drawn[k]) by {
                    if k < before.len() {
                        assert(drawn[k] == before[k]);
                    }
                }
            }
            lemma_kept_agree(positions@, radii@, before, drawn, t as int);
        }
        match inside(positions, radii, &p) {
            Some(true) => {
                points.push(p);
            },
            Some(false) => {},
            None => {
                proof {
                    assert(kept_spec(positions@, radii@, drawn, t + 1).is_none());
                    let rest = Seq::new(trials as nat, |i: int| if i < drawn.len() { drawn[i] } else { lo });
                    assert(in_box(lo, hi, lo));
                    assert(drawn_from(lo, hi, rest, trials as int));
                    lemma_kept_agree(positions@, radii@, drawn, rest, t + 1);
                    lemma_kept_stuck(positions@, radii@, rest, t + 1, trials as int);
                }
                return None;
            },
        }
        t += 1;
    }
    Some(points)
}

/// `after` is what the samples `samples` of its bounding box make of the body
/// `before`, and `ok` tells whether they made anything of it: the samples
/// that lie in the body give it its mass properties; where no sample lies in
/// it, or a quantity has no `i64` representation, the body stays as it was.
pub open spec fn recorded(
    before: RigidBodySphereData,
    after: RigidBodySphereData,
    density: i64,
    samples: Seq<Vec3>,
    trials: int,
    ok: bool,
) -> bool {
    match kept_spec(before.position@, before.radius@, samples, trials) {
        Some(points) => match initialized_spec(before, density as int, points, trials) {
            Some(outcome) => ok && initialized_as(after, before, density, outcome),
            None => !ok && after == before,
        },
        None => !ok && after == before,
    }
}

/// `after` is what some `trials` samples of its bounding box make of the body
/// `before`, and `ok` tells whether they made anything of it. No samples are
/// drawn, and the body stays as it was, where the bounding box has no `i64`
/// representation or is empty along an axis.
pub open spec fn estimated(
    before: RigidBodySphereData,
    after: RigidBodySphereData,
    density: i64,
    trials: int,
    ok: bool,
) -> bool {
    match aabb_spec(before.position@, before.radius@, before.count()) {
        Some((lo, hi)) => if lo.x < hi.x && lo.y < hi.y && lo.z < hi.z {
            exists|samples: Seq<Vec3>| #[trigger]
                drawn_from(lo, hi, samples, trials) && recorded(before, after, density, samples, trials, ok)
        } else {
            !ok && after == before
        },
        None => !ok && after == before,
    }
}

impl RigidBodySphereData {
    /// The bounding box of the spheres: the least and the greatest corner. It
    /// starts as the first centre and grows to hold each sphere in turn.
    ///
    /// `None` where a corner has no `i64` representation.
    pub fn get_aabb(&self) -> (r: Option<(Vec3, Vec3)>)
        requires
            self.wf(),
            self.count() > 0,
        ensures
            r == aabb_spec(self.position@, self.radius@, self.count()),
    {
        let n: usize = self.position.len();
        let mut lo: Vec3 = self.position[0];
        let mut hi: Vec3 = self.position[0];
        let mut i: usize = 0;
        while i < n
            invariant
                self.wf(),
                n == self.count(),
                i <= n,
                aabb_spec(self.position@, self.radius@, i as int) == Some((lo, hi)),
            decreases n - i,
        {
            match grown(lo, hi, self.position[i], self.radius[i]) {
                Some((a, b)) => {
                    lo = a;
                    hi = b;
                },
                None => {
                    proof {
                        assert(aabb_spec(self.position@, self.radius@, i + 1).is_none());
                        lemma_aabb_stuck(self.position@, self.radius@, i + 1, n as int);
                    }
                    return None;
                },
            }
            i += 1;
        }
        Some((lo, hi))
    }

    /// Gives the body the mass properties that follow from `points`, the ones
    /// of `trials` samples of its bounding box that fell into it: the centre
    /// of mass becomes the origin of the body frame, volume, mass and density
    /// are recorded, and the inertia tensor about the centre of mass is added
    /// to the tensor of the body; the principal moments start as its
    /// diagonal.
    ///
    /// Fails, and changes nothing, where there is no point or a quantity has
    /// no `i64` representation.
    pub fn initialize_from(&mut self, density: i64, points: &Vec<Vec3>, trials: u64) -> (r: Result<
        (),
        NumericError,
    >)
        requires
            old(self).wf(),
            old(self).count() > 0,
        ensures
            final(self).wf(),
            match initialized_spec(*old(self), density as int, points@, trials as int) {
                Some(outcome) => r.is_ok() && initialized_as(*final(self), *old(self), density, outcome),
                None => r.is_err() && *final(self) == *old(self),
            },
    {
        let found: Option<(MassProperties, Vec<Vec3>, Vec<Vec3>)> = self.learn(density, points, trials);
        match found {
            Some((properties, position, local_position)) => {
                self.position = position;
                self.local_position = local_position;
                self.density = density;
                self.mass = properties.mass;
                self.volume = properties.volume;
                self.local_inertia_tensor = properties.tensor;
                self.diagonal_inertia = Vec3 {
                    x: properties.tensor.x.x,
                    y: properties.tensor.y.y,
                    z: properties.tensor.z.z,
                };
                Ok(())
            },
            None => Err(NumericError::OutOfRange),
        }
    }

    /// What `initialize_from` is about to record.
    fn learn(&self, density: i64, points: &Vec<Vec3>, trials: u64) -> (r: Option<
        (MassProperties, Vec<Vec3>, Vec<Vec3>),
    >)
        requires
            self.wf(),
            self.count() > 0,
        ensures
            match initialized_spec(*self, density as int, points@, trials as int) {
                Some(outcome) => r.is_some() && r.unwrap().0 == outcome.properties && r.unwrap().1@
                    == outcome.position && r.unwrap().2@ == outcome.local_position
                    && outcome.position.len() == self.count() && outcome.local_position.len()
                    == self.count(),
                None => r.is_none(),
            },
    {
        let (lo, hi) = self.get_aabb()?;
        let length: Vec3 = hi.minus(&lo)?;
        let properties: MassProperties = mass_properties(
            points,
            &length,
            trials,
            density,
            &self.local_inertia_tensor,
        )?;
        let position: Option<Vec<Vec3>> = shifted(&self.position, &properties.center);
        let local_position: Option<Vec<Vec3>> = shifted(&self.local_position, &properties.center);
        let position: Vec<Vec3> = position?;
        let local_position: Vec<Vec3> = local_position?;
        Some((properties, position, local_position))
    }

    /// Estimates the mass properties of the body from `trials` points drawn at
    /// random in its bounding box, and records them as `initialize_from` does
    /// with the ones that lie in the body. Which points are drawn is left to
    /// chance.
    ///
    /// Fails, and changes nothing, where the bounding box has no `i64`
    /// representation or is empty along an axis, no sample falls into the
    /// body, or a quantity has no `i64` representation.
    pub fn initialize_with(&mut self, density: i64, trials: u64) -> (r: Result<(), NumericError>)
        requires
            old(self).wf(),
            old(self).count() > 0,
        ensures
            final(self).wf(),
            estimated(*old(self), *final(self), density, trials as int, r.is_ok()),
    {
        let (lo, hi) = match self.get_aabb() {
            Some(b) => b,
            None => {
                return Err(NumericError::OutOfRange);
            },
        };
        if lo.x >= hi.x || lo.y >= hi.y || lo.z >= hi.z {
            return Err(NumericError::OutOfRange);
        }
        let sampled: Option<Vec<Vec3>> = sample_inside(&self.position, &self.radius, lo, hi, trials);
        let ghost samples = choose|samples: Seq<Vec3>| #[trigger]
            drawn_from(lo, hi, samples, trials as int) && (match kept_spec(
                self.position@,
                self.radius@,
                samples,
                trials as int,
            ) {
                Some(kept) => sampled.is_some() && sampled.unwrap()@ == kept,
                None => sampled.is_none(),
            });
        let points: Vec<Vec3> = match sampled {
            Some(points) => points,
            None => {
                assert(recorded(*old(self), *self, density, samples, trials as int, false));
                return Err(NumericError::OutOfRange);
            },
        };
        let r: Result<(), NumericError> = self.initialize_from(density, &points, trials);
        assert(recorded(*old(self), *self, density, samples, trials as int, r.is_ok()));
        r
    }

    /// Estimates the mass properties of the body from a hundred million points
    /// drawn at random in its bounding box: see `initialize_with`.
    ///
    /// You need position and radius already loaded to call this.
    pub fn initialize(&mut self, density: i64) -> (r: Result<(), NumericError>)
        requires
            old(self).wf(),
            old(self).count() > 0,
        ensures
            final(self).wf(),
            estimated(*old(self), *final(self), density, TRIALS as int, r.is_ok()),
    {
        self.initialize_with(density, TRIALS)
    }
}

} // verus!
