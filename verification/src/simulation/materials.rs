//! What follows from the materials before a run: the effective constants of
//! every pair of materials, and the time step that the stiffest entity allows.
use vstd::prelude::*;
use std::collections::HashMap;
use crate::contact::{effective_radius, effective_radius_spec, effective_youngs, effective_youngs_spec};
use crate::fixed::{NumericError, SCALE, fx_add, fx_div, fx_div_spec, fx_mul, fx_mul_spec, mul_div,
    mul_div_spec, narrow, sqrt_mul, sqrt_mul_spec};
use crate::sphere::{EffectiveMaterialPreCalc, Material, ParticleData, ParticleView, PI};

verus! {

/// The key under which the pair of the materials with the identifiers `a` and
/// `b` is filed: the two identifiers, each counted from the least `i32`, side
/// by side in one number.
pub open spec fn pair_key_spec(a: i32, b: i32) -> u64 {
    ((a - i32::MIN) * 0x1_0000_0000 + (b - i32::MIN)) as u64
}

/// Different pairs of identifiers are filed under different keys.
pub proof fn lemma_pair_key_injective(a: i32, b: i32, c: i32, d: i32)
    requires
        pair_key_spec(a, b) == pair_key_spec(c, d),
    ensures
        a == c,
        b == d,
{
}

/// The effective constants of a pair of materials.
pub open spec fn effective_spec(m1: Material, m2: Material) -> Option<EffectiveMaterialPreCalc> {
    match (
        effective_radius_spec(m1.radius as int, m2.radius as int),
        effective_youngs_spec(
            m1.youngs_mod as int,
            m1.poisson_ratio as int,
            m2.youngs_mod as int,
            m2.poisson_ratio as int,
        ),
    ) {
        (Some(eff_radius), Some(eff_youngs_mod)) => Some(
            EffectiveMaterialPreCalc { eff_radius, eff_youngs_mod },
        ),
        _ => None,
    }
}

/// The entries of material `a` with the first `upto` materials.
pub open spec fn entries_row_spec(ms: Seq<Material>, a: int, upto: int) -> Option<
    Seq<(u64, EffectiveMaterialPreCalc)>,
>
    decreases upto,
{
    if upto <= 0 {
        Some(Seq::empty())
    } else {
        match (entries_row_spec(ms, a, upto - 1), effective_spec(ms[a], ms[upto - 1])) {
            (Some(es), Some(e)) => Some(es.push((pair_key_spec(ms[a].id, ms[upto - 1].id), e))),
            _ => None,
        }
    }
}

/// The entries of the first `upto` materials, each with every material, in
/// order.
pub open spec fn entries_spec(ms: Seq<Material>, upto: int) -> Option<Seq<(u64, EffectiveMaterialPreCalc)>>
    decreases upto,
{
    if upto <= 0 {
        Some(Seq::empty())
    } else {
        match (entries_spec(ms, upto - 1), entries_row_spec(ms, upto - 1, ms.len() as int)) {
            (Some(es), Some(row)) => Some(es + row),
            _ => None,
        }
    }
}

/// The map with the first `upto` entries filed, a later entry replacing an
/// earlier one under the same key.
pub open spec fn filed_spec(
    map: Map<u64, EffectiveMaterialPreCalc>,
    es: Seq<(u64, EffectiveMaterialPreCalc)>,
    upto: int,
) -> Map<u64, EffectiveMaterialPreCalc>
    decreases upto,
{
    if upto <= 0 {
        map
    } else {
        filed_spec(map, es, upto - 1).insert(es[upto - 1].0, es[upto - 1].1)
    }
}

proof fn lemma_row_stuck(ms: Seq<Material>, a: int, at: int, upto: int)
    requires
        0 <= at <= upto,
        entries_row_spec(ms, a, at).is_none(),
    ensures
        entries_row_spec(ms, a, upto).is_none(),
    decreases upto - at,
{
    if at < upto {
        lemma_row_stuck(ms, a, at, upto - 1);
    }
}

proof fn lemma_entries_stuck(ms: Seq<Material>, at: int, upto: int)
    requires
        0 <= at <= upto,
        entries_spec(ms, at).is_none(),
    ensures
        entries_spec(ms, upto).is_none(),
    decreases upto - at,
{
    if at < upto {
        lemma_entries_stuck(ms, at, upto - 1);
    }
}

pub fn pair_key(a: i32, b: i32) -> (k: u64)
    ensures
        k == pair_key_spec(a, b),
{
    let high: u64 = (a as i64 + 2_147_483_648i64) as u64;
    let low: u64 = (b as i64 + 2_147_483_648i64) as u64;
    high * 4_294_967_296u64 + low
}

pub fn effective(m1: &Material, m2: &Material) -> (r: Option<EffectiveMaterialPreCalc>)
    ensures
        r == effective_spec(*m1, *m2),
{
    let eff_radius: Option<i64> = effective_radius(m1.radius, m2.radius);
    let eff_youngs_mod: Option<i64> = effective_youngs(
        m1.youngs_mod,
        m1.poisson_ratio,
        m2.youngs_mod,
        m2.poisson_ratio,
    );
    let eff_radius: i64 = eff_radius?;
    let eff_youngs_mod: i64 = eff_youngs_mod?;
    Some(EffectiveMaterialPreCalc { eff_radius, eff_youngs_mod })
}

fn entries(ms: &Vec<Material>) -> (r: Option<Vec<(u64, EffectiveMaterialPreCalc)>>)
    ensures
        match entries_spec(ms@, ms@.len() as int) {
            Some(es) => r.is_some() && r.unwrap()@ == es,
            None => r.is_none(),
        },
{
    let n: usize = ms.len();
    let mut es: Vec<(u64, EffectiveMaterialPreCalc)> = Vec::new();
    let mut a: usize = 0;
    while a < n
        invariant
            n == ms@.len(),
            a <= n,
            entries_spec(ms@, a as int) == Some(es@),
        decreases n - a,
    {
        let ghost before = es@;
        let mut b: usize = 0;
        while b < n
            invariant
                n == ms@.len(),
                a < n,
                b <= n,
                entries_spec(ms@, a as int) == Some(before),
                entries_row_spec(ms@, a as int, b as int).is_some(),
                es@ == before + entries_row_spec(ms@, a as int, b as int).unwrap(),
            decreases n - b,
        {
            match effective(&ms[a], &ms[b]) {
                Some(e) => {
                    let key: u64 = pair_key(ms[a].id, ms[b].id);
                    es.push((key, e));
                    assert(es@ =~= before + entries_row_spec(ms@, a as int, b + 1).unwrap());
                },
                None => {
                    proof {
                        assert(entries_row_spec(ms@, a as int, b + 1).is_none());
                        lemma_row_stuck(ms@, a as int, b + 1, n as int);
                        assert(entries_spec(ms@, a + 1).is_none());
                        lemma_entries_stuck(ms@, a + 1, n as int);
                    }
                    return None;
                },
            }
            b += 1;
        }
        a += 1;
    }
    Some(es)
}

/// Files the effective constants of every pair of materials under the key of
/// their identifiers, in the order of the materials, a later pair replacing
/// an earlier one with the same identifiers.
///
/// Fails, and changes nothing, where a constant has no `i64` representation.
pub fn generate_material_map(p_data: &mut ParticleData) -> (r: Result<(), NumericError>)
    requires
        old(p_data).wf(),
    ensures
        final(p_data).wf(),
        match entries_spec(old(p_data)@.materials, old(p_data)@.materials.len() as int) {
            Some(es) => r.is_ok() && final(p_data)@ == (ParticleView {
                sphere_material_map: filed_spec(old(p_data)@.sphere_material_map, es, es.len() as int),
                ..old(p_data)@
            }),
            None => r.is_err() && final(p_data)@ == old(p_data)@,
        },
{
    let es: Vec<(u64, EffectiveMaterialPreCalc)> = match entries(&p_data.materials) {
        Some(es) => es,
        None => {
            return Err(NumericError::OutOfRange);
        },
    };
    let n: usize = es.len();
    let mut t: usize = 0;
    while t < n
        invariant
            n == es@.len(),
            t <= n,
            p_data.wf(),
            p_data@ == (ParticleView {
                sphere_material_map: filed_spec(old(p_data)@.sphere_material_map, es@, t as int),
                ..old(p_data)@
            }),
        decreases n - t,
    {
        let (key, e) = es[t];
        p_data.sphere_material_map.insert(key, e);
        t += 1;
    }
    Ok(())
}

/// The time step with which a run begins, before any entity has limited it:
/// a thousandth.
pub const LARGEST_STEP: i64 = 1_000;

/// The time that a surface wave takes around an entity of radius `r`,
/// density `density`, Young's modulus `e` and Poisson ratio `nu`: `pi * r /
/// alpha * sqrt(density / g)` with the shear modulus `g = e / (2 * (1 + nu))`
/// and `alpha = 0.1631 * nu + 0.876605`.
pub open spec fn rayleigh_time_spec(r: int, density: int, e: int, nu: int) -> Option<i64> {
    match (narrow(2 * (SCALE + nu)), fx_mul_spec(163_100, nu)) {
        (Some(twice), Some(slope)) => match (fx_div_spec(e, twice as int), narrow(slope + 876_605)) {
            (Some(g), Some(alpha)) => match (fx_div_spec(density, g as int), fx_mul_spec(PI as int, r)) {
                (Some(ratio), Some(around)) => match (
                    sqrt_mul_spec(ratio as int, SCALE as int),
                    fx_div_spec(around as int, alpha as int),
                ) {
                    (Some(root), Some(path)) => fx_mul_spec(path as int, root as int),
                    _ => None,
                },
                _ => None,
            },
            _ => None,
        },
        _ => None,
    }
}

/// The least of `LARGEST_STEP` and the wave times of the first `upto`
/// entities.
pub open spec fn least_time_spec(p: ParticleView, upto: int) -> Option<i64>
    decreases upto,
{
    if upto <= 0 {
        Some(LARGEST_STEP)
    } else {
        match (
            least_time_spec(p, upto - 1),
            rayleigh_time_spec(
                p.radius[upto - 1] as int,
                p.density[upto - 1] as int,
                p.youngs_mod[upto - 1] as int,
                p.poisson_ratio[upto - 1] as int,
            ),
        ) {
            (Some(least), Some(t)) => Some(
                if t < least {
                    t
                } else {
                    least
                },
            ),
            _ => None,
        }
    }
}

/// The time step of a run: half the least wave time of any entity, and at
/// most half a thousandth.
pub open spec fn delta_time_spec(p: ParticleView) -> Option<i64> {
    match least_time_spec(p, p.count()) {
        Some(least) => mul_div_spec(least as int, 1, 2),
        None => None,
    }
}

proof fn lemma_least_time_stuck(p: ParticleView, at: int, upto: int)
    requires
        0 <= at <= upto,
        least_time_spec(p, at).is_none(),
    ensures
        least_time_spec(p, upto).is_none(),
    decreases upto - at,
{
    if at < upto {
        lemma_least_time_stuck(p, at, upto - 1);
    }
}

pub fn rayleigh_time(r: i64, density: i64, e: i64, nu: i64) -> (t: Option<i64>)
    ensures
        t == rayleigh_time_spec(r as int, density as int, e as int, nu as int),
{
    let above: Option<i64> = fx_add(SCALE, nu);
    let twice: Option<i64> = match above {
        Some(a) => fx_add(a, a),
        None => None,
    };
    let slope: Option<i64> = fx_mul(163_100, nu);
    let twice: i64 = twice?;
    let slope: i64 = slope?;
    let g: Option<i64> = fx_div(e, twice);
    let alpha: Option<i64> = fx_add(slope, 876_605);
    let g: i64 = g?;
    let alpha: i64 = alpha?;
    let ratio: Option<i64> = fx_div(density, g);
    let around: Option<i64> = fx_mul(PI, r);
    let ratio: i64 = ratio?;
    let around: i64 = around?;
    let root: Option<i64> = sqrt_mul(ratio, SCALE);
    let path: Option<i64> = fx_div(around, alpha);
    let root: i64 = root?;
    let path: i64 = path?;
    fx_mul(path, root)
}

/// The time step that the entities allow.
///
/// `None` where a quantity on the way has no `i64` representation.
pub fn calculate_delta_time(p_data: &ParticleData) -> (dt: Option<i64>)
    requires
        p_data.wf(),
    ensures
        dt == delta_time_spec(p_data@),
{
    let n: usize = p_data.radius.len();
    let mut least: i64 = LARGEST_STEP;
    let mut i: usize = 0;
    while i < n
        invariant
            p_data.wf(),
            n == p_data.count(),
            i <= n,
            least_time_spec(p_data@, i as int) == Some(least),
        decreases n - i,
    {
        match rayleigh_time(p_data.radius[i], p_data.density[i], p_data.youngs_mod[i], p_data.poisson_ratio[i]) {
            Some(t) => {
                if t < least {
                    least = t;
                }
            },
            None => {
                proof {
                    assert(least_time_spec(p_data@, i + 1).is_none());
                    lemma_least_time_stuck(p_data@, i + 1, n as int);
                }
                return None;
            },
        }
        i += 1;
    }
    mul_div(least, 1, 2)
}

} // verus!
