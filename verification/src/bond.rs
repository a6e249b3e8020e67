//! Cohesive bonds between pairs of entities: what a bond carries, when it
//! breaks, and the set of the bonds that are alive.
use vstd::prelude::*;
use crate::fixed::{NumericError, fits, fx_add, fx_div, fx_div_spec, fx_mul, fx_mul_spec, mul_div,
    mul_div_spec, narrow};
use crate::sphere::PI;
use crate::vector::Vec3;

verus! {

/// One bond: its stiffnesses and strengths, the forces and moments that it
/// carries, and whether it has broken.
#[derive(Clone, Copy, Debug, PartialEq, Eq, Structural)]
pub struct BondData {
    pub n_stiff: i64,
    pub t_stiff: i64,
    pub mn_stiff: i64,
    pub mt_stiff: i64,
    pub sigma_max: i64,
    pub tau_max: i64,
    pub e_n: i64,
    pub e_t: i64,
    pub e_tor: i64,
    pub e_bend: i64,
    pub normal_force_sum: Vec3,
    pub tangential_force_sum: Vec3,
    pub normal_moment_sum: Vec3,
    pub tangential_moment_sum: Vec3,
    pub incremental_normal_moment: Vec3,
    pub incremental_tangential_moment: Vec3,
    pub potential_energy_comp_ext: i64,
    pub potential_energy_tang_deform: i64,
    pub potential_energy_rot_deform: i64,
    pub pontential_energy_bend_deform: i64,
    pub incremental_tangential_force: Vec3,
    /// The force along the bond, positive where the bond is stretched.
    pub resistance_normal_force: i64,
    pub current_sigma: i64,
    pub current_tau: i64,
    pub broken: bool,
}

/// The cross section of a bond of radius `r`: `pi * r * r`.
pub open spec fn bond_area_spec(r: int) -> Option<i64> {
    match fx_mul_spec(r, r) {
        Some(square) => fx_mul_spec(PI as int, square as int),
        None => None,
    }
}

/// The polar moment of the cross section: `pi * r^4 / 2`.
pub open spec fn polar_moment_spec(r: int) -> Option<i64> {
    match fx_mul_spec(r, r) {
        Some(square) => match fx_mul_spec(square as int, square as int) {
            Some(fourth) => match fx_mul_spec(PI as int, fourth as int) {
                Some(whole) => mul_div_spec(whole as int, 1, 2),
                None => None,
            },
            None => None,
        },
        None => None,
    }
}

/// The stress that a force along the bond and a moment across it put on a
/// bond of radius `r`: `force / area + 2 * moment * r / polar`, with `moment`
/// the magnitude of the moment. With the magnitude of the force across the
/// bond and of the moment along it, and without the factor two, it is the
/// shear stress.
pub open spec fn stress_spec(force: int, moment: int, r: int, doubled: bool) -> Option<i64> {
    match (bond_area_spec(r), polar_moment_spec(r), fx_mul_spec(moment, r)) {
        (Some(area), Some(polar), Some(lever)) => match (
            fx_div_spec(force, area as int),
            fx_div_spec(lever as int, polar as int),
        ) {
            (Some(direct), Some(bending)) => if doubled {
                narrow(direct + 2 * bending)
            } else {
                narrow(direct + bending)
            },
            _ => None,
        },
        _ => None,
    }
}

/// The two stresses of a bond of radius `r`: the normal stress of the force
/// along it and the moment across it, and the shear stress of the force
/// across it and the moment along it.
pub open spec fn stresses_spec(b: BondData, r: int) -> Option<(i64, i64)> {
    match (
        b.tangential_moment_sum.norm_spec(),
        b.tangential_force_sum.norm_spec(),
        b.normal_moment_sum.norm_spec(),
    ) {
        (Some(moment_across), Some(force_across), Some(moment_along)) => match (
            stress_spec(b.resistance_normal_force as int, moment_across as int, r, true),
            stress_spec(force_across as int, moment_along as int, r, false),
        ) {
            (Some(sigma), Some(tau)) => Some((sigma, tau)),
            _ => None,
        },
        _ => None,
    }
}

/// The bond with its stresses on record, broken where one of them is above
/// its strength, or where it was broken before.
pub open spec fn assessed_spec(b: BondData, r: int) -> Option<BondData> {
    match stresses_spec(b, r) {
        Some((sigma, tau)) => Some(
            BondData {
                current_sigma: sigma,
                current_tau: tau,
                broken: b.broken || sigma > b.sigma_max || tau > b.tau_max,
                ..b
            },
        ),
        None => None,
    }
}

/// The bond after its ends have moved apart at the speed `speed` for the time
/// `dt`: as an elastic beam of radius `r`, it pulls harder by its normal
/// stiffness times its cross section times the stretch.
pub open spec fn stretched_spec(b: BondData, speed: int, dt: int, r: int) -> Option<BondData> {
    match (bond_area_spec(r), fx_mul_spec(speed, dt)) {
        (Some(area), Some(stretch)) => match fx_mul_spec(b.n_stiff as int, area as int) {
            Some(rate) => match fx_mul_spec(rate as int, stretch as int) {
                Some(gain) => if fits(b.resistance_normal_force + gain) {
                    Some(
                        BondData { resistance_normal_force: (b.resistance_normal_force + gain) as i64, ..b },
                    )
                } else {
                    None
                },
                None => None,
            },
            None => None,
        },
        _ => None,
    }
}

/// A running sum and the increment waiting to enter it: the increment enters
/// the sum, and starts anew, once its magnitude is above `threshold`.
pub open spec fn committed_spec(sum: Vec3, increment: Vec3, threshold: int) -> Option<(Vec3, Vec3)> {
    match increment.norm_spec() {
        Some(size) => if size > threshold {
            match sum.plus_spec(increment) {
                Some(total) => Some((total, Vec3::zero_spec())),
                None => None,
            }
        } else {
            Some((sum, increment))
        },
        None => None,
    }
}

pub fn bond_area(r: i64) -> (a: Option<i64>)
    ensures
        a == bond_area_spec(r as int),
{
    let square: i64 = fx_mul(r, r)?;
    fx_mul(PI, square)
}

pub fn polar_moment(r: i64) -> (j: Option<i64>)
    ensures
        j == polar_moment_spec(r as int),
{
    let square: i64 = fx_mul(r, r)?;
    let fourth: i64 = fx_mul(square, square)?;
    let whole: i64 = fx_mul(PI, fourth)?;
    mul_div(whole, 1, 2)
}

pub fn stress(force: i64, moment: i64, r: i64, doubled: bool) -> (s: Option<i64>)
    ensures
        s == stress_spec(force as int, moment as int, r as int, doubled),
{
    let area: Option<i64> = bond_area(r);
    let polar: Option<i64> = polar_moment(r);
    let lever: Option<i64> = fx_mul(moment, r);
    let area: i64 = area?;
    let polar: i64 = polar?;
    let lever: i64 = lever?;
    let direct: Option<i64> = fx_div(force, area);
    let bending: Option<i64> = fx_div(lever, polar);
    let direct: i64 = direct?;
    let bending: i64 = bending?;
    if doubled {
        crate::fixed::to_i64(direct as i128 + 2 * (bending as i128))
    } else {
        fx_add(direct, bending)
    }
}

pub fn committed(sum: &Vec3, increment: &Vec3, threshold: i64) -> (r: Option<(Vec3, Vec3)>)
    ensures
        r == committed_spec(*sum, *increment, threshold as int),
{
    let size: i64 = increment.norm()?;
    if size > threshold {
        let total: Vec3 = sum.plus(increment)?;
        Some((total, Vec3::zero()))
    } else {
        Some((*sum, *increment))
    }
}

impl BondData {
    /// A fresh bond with the given stiffnesses, strengths and damping
    /// coefficients, carrying nothing.
    pub fn new(
        n_stiff: i64,
        t_stiff: i64,
        mn_stiff: i64,
        mt_stiff: i64,
        sigma_max: i64,
        tau_max: i64,
        e_n: i64,
        e_t: i64,
        e_tor: i64,
        e_bend: i64,
    ) -> (b: BondData)
        ensures
            b == (BondData {
                n_stiff,
                t_stiff,
                mn_stiff,
                mt_stiff,
                sigma_max,
                tau_max,
                e_n,
                e_t,
                e_tor,
                e_bend,
                normal_force_sum: Vec3::zero_spec(),
                tangential_force_sum: Vec3::zero_spec(),
                normal_moment_sum: Vec3::zero_spec(),
                tangential_moment_sum: Vec3::zero_spec(),
                incremental_normal_moment: Vec3::zero_spec(),
                incremental_tangential_moment: Vec3::zero_spec(),
                potential_energy_comp_ext: 0,
                potential_energy_tang_deform: 0,
                potential_energy_rot_deform: 0,
                pontential_energy_bend_deform: 0,
                incremental_tangential_force: Vec3::zero_spec(),
                resistance_normal_force: 0,
                current_sigma: 0,
                current_tau: 0,
                broken: false,
            }),
    {
        BondData {
            n_stiff,
            t_stiff,
            mn_stiff,
            mt_stiff,
            sigma_max,
            tau_max,
            e_n,
            e_t,
            e_tor,
            e_bend,
            normal_force_sum: Vec3::zero(),
            tangential_force_sum: Vec3::zero(),
            normal_moment_sum: Vec3::zero(),
            tangential_moment_sum: Vec3::zero(),
            incremental_normal_moment: Vec3::zero(),
            incremental_tangential_moment: Vec3::zero(),
            potential_energy_comp_ext: 0,
            potential_energy_tang_deform: 0,
            potential_energy_rot_deform: 0,
            pontential_energy_bend_deform: 0,
            incremental_tangential_force: Vec3::zero(),
            resistance_normal_force: 0,
            current_sigma: 0,
            current_tau: 0,
            broken: false,
        }
    }

    /// The normal and the shear stress of the bond.
    pub fn stresses(&self, r: i64) -> (s: Option<(i64, i64)>)
        ensures
            s == stresses_spec(*self, r as int),
    {
        let moment_across: Option<i64> = self.tangential_moment_sum.norm();
        let force_across: Option<i64> = self.tangential_force_sum.norm();
        let moment_along: Option<i64> = self.normal_moment_sum.norm();
        let moment_across: i64 = moment_across?;
        let force_across: i64 = force_across?;
        let moment_along: i64 = moment_along?;
        let sigma: Option<i64> = stress(self.resistance_normal_force, moment_across, r, true);
        let tau: Option<i64> = stress(force_across, moment_along, r, false);
        let sigma: i64 = sigma?;
        let tau: i64 = tau?;
        Some((sigma, tau))
    }

    /// Records the stresses of the bond and breaks it where one of them is
    /// above its strength. Gives whether the bond is broken.
    ///
    /// Fails, and changes nothing, where a stress has no `i64` representation.
    pub fn assess(&mut self, r: i64) -> (result: Result<bool, NumericError>)
        ensures
            match assessed_spec(*old(self), r as int) {
                Some(b) => result == Ok::<bool, NumericError>(b.broken) && *final(self) == b,
                None => result.is_err() && *final(self) == *old(self),
            },
    {
        match self.stresses(r) {
            Some((sigma, tau)) => {
                self.current_sigma = sigma;
                self.current_tau = tau;
                if sigma > self.sigma_max || tau > self.tau_max {
                    self.broken = true;
                }
                Ok(self.broken)
            },
            None => Err(NumericError::OutOfRange),
        }
    }

    /// Stretches the bond: its ends move apart at `speed` for the time `dt`.
    ///
    /// Fails, and changes nothing, where a quantity has no `i64`
    /// representation.
    pub fn stretch(&mut self, speed: i64, dt: i64, r: i64) -> (result: Result<(), NumericError>)
        ensures
            match stretched_spec(*old(self), speed as int, dt as int, r as int) {
                Some(b) => result.is_ok() && *final(self) == b,
                None => result.is_err() && *final(self) == *old(self),
            },
    {
        let area: Option<i64> = bond_area(r);
        let stretch: Option<i64> = fx_mul(speed, dt);
        let pulled: Option<i64> = match (area, stretch) {
            (Some(a), Some(s)) => match fx_mul(self.n_stiff, a) {
                Some(rate) => match fx_mul(rate, s) {
                    Some(gain) => fx_add(self.resistance_normal_force, gain),
                    None => None,
                },
                None => None,
            },
            _ => None,
        };
        match pulled {
            Some(force) => {
                self.resistance_normal_force = force;
                Ok(())
            },
            None => Err(NumericError::OutOfRange),
        }
    }
}

/// A bond with the two entities that it holds together, the lower index first.
#[derive(Clone, Copy, Debug, PartialEq, Eq, Structural)]
pub struct BondEntry {
    pub first: usize,
    pub second: usize,
    pub bond: BondData,
}

/// Where a pair of entities stands: never bonded or bonded no more, bonded,
/// or with a bond that has broken and has not been swept away yet.
#[derive(Clone, Copy, Debug, PartialEq, Eq, Structural)]
pub enum BondState {
    Absent,
    Active,
    Broken,
}

/// The bonds that are on record, at most one for a pair of entities.
pub struct BondSet {
    pub entries: Vec<BondEntry>,
}

/// The pair `(i, j)` with the lower index first.
pub open spec fn ordered_spec(i: usize, j: usize) -> (usize, usize) {
    if i <= j {
        (i, j)
    } else {
        (j, i)
    }
}

/// Entry `e` is the bond of the pair `(i, j)`, in either order.
pub open spec fn joins(e: BondEntry, i: usize, j: usize) -> bool {
    (e.first, e.second) == ordered_spec(i, j)
}

/// The bonds of `entries` from place `from` on that are not broken, in order.
pub open spec fn unbroken_spec(entries: Seq<BondEntry>, upto: int) -> Seq<BondEntry>
    decreases upto,
{
    if upto <= 0 {
        Seq::empty()
    } else if entries[upto - 1].bond.broken {
        unbroken_spec(entries, upto - 1)
    } else {
        unbroken_spec(entries, upto - 1).push(entries[upto - 1])
    }
}

/// The unbroken entries are the entries that are not broken.
pub proof fn lemma_unbroken(entries: Seq<BondEntry>, upto: int, e: BondEntry)
    requires
        0 <= upto <= entries.len(),
    ensures
        unbroken_spec(entries, upto).contains(e) <==> (!e.bond.broken && exists|t: int|
            0 <= t < upto && #[trigger] entries[t] == e),
    decreases upto,
{
    if upto > 0 {
        lemma_unbroken(entries, upto - 1, e);
        let prev = unbroken_spec(entries, upto - 1);
        let cur = unbroken_spec(entries, upto);
        let last = entries[upto - 1];
        if !last.bond.broken {
            assert(cur == prev.push(last));
            if cur.contains(e) {
                let t = choose|t: int| 0 <= t < cur.len() && cur[t] == e;
                if t < prev.len() {
                    assert(prev[t] == e);
                    assert(prev.contains(e));
                } else {
                    assert(entries[upto - 1] == e);
                }
            }
            if !e.bond.broken && exists|t: int| 0 <= t < upto && #[trigger] entries[t] == e {
                let t = choose|t: int| 0 <= t < upto && #[trigger] entries[t] == e;
                if t < upto - 1 {
                    assert(prev.contains(e));
                    let s = choose|s: int| 0 <= s < prev.len() && prev[s] == e;
                    assert(cur[s] == e);
                } else {
                    assert(cur[prev.len() as int] == e);
                }
            }
        } else {
            if !e.bond.broken && exists|t: int| 0 <= t < upto && #[trigger] entries[t] == e {
                let t = choose|t: int| 0 <= t < upto && #[trigger] entries[t] == e;
                assert(t < upto - 1);
            }
        }
    } else {
        assert(unbroken_spec(entries, upto) =~= Seq::<BondEntry>::empty());
    }
}

/// Every entry has the lower index first, the two indices differ, and no
/// pair has two entries.
pub open spec fn bonds_wf(entries: Seq<BondEntry>) -> bool {
    &&& forall|t: int| 0 <= t < entries.len() ==> (#[trigger] entries[t]).first < entries[t].second
    &&& forall|s: int, t: int|
        0 <= s < t < entries.len() ==> !((#[trigger] entries[s]).first == (#[trigger] entries[t]).first
            && entries[s].second == entries[t].second)
}

impl BondSet {
    /// Well-formedness: every entry has the lower index first, the two
    /// differ, and no pair has two entries.
    pub open spec fn wf(self) -> bool {
        bonds_wf(self.entries@)
    }

    /// The place of the bond of the pair `(i, j)`, where it has one.
    pub open spec fn place_spec(self, i: usize, j: usize) -> Option<int> {
        if exists|t: int| 0 <= t < self.entries@.len() && joins(#[trigger] self.entries@[t], i, j) {
            Some(choose|t: int| 0 <= t < self.entries@.len() && joins(#[trigger] self.entries@[t], i, j))
        } else {
            None
        }
    }

    /// Where the pair `(i, j)` stands.
    pub open spec fn state_spec(self, i: usize, j: usize) -> BondState {
        match self.place_spec(i, j) {
            Some(t) => if self.entries@[t].bond.broken {
                BondState::Broken
            } else {
                BondState::Active
            },
            None => BondState::Absent,
        }
    }

    /// A set without bonds.
    pub fn new() -> (s: BondSet)
        ensures
            s.wf(),
            s.entries@.len() == 0,
    {
        BondSet { entries: Vec::new() }
    }

    /// The place of the bond of the pair `(i, j)`.
    pub fn find(&self, i: usize, j: usize) -> (r: Option<usize>)
        requires
            self.wf(),
        ensures
            match r {
                Some(t) => t < self.entries@.len() && joins(self.entries@[t as int], i, j)
                    && self.place_spec(i, j) == Some(t as int),
                None => self.place_spec(i, j).is_none(),
            },
    {
        let (a, b) = if i <= j { (i, j) } else { (j, i) };
        let n: usize = self.entries.len();
        let mut t: usize = 0;
        while t < n
            invariant
                self.wf(),
                n == self.entries@.len(),
                t <= n,
                (a, b) == ordered_spec(i, j),
                forall|s: int| 0 <= s < t ==> !joins(#[trigger] self.entries@[s], i, j),
            decreases n - t,
        {
            if self.entries[t].first == a && self.entries[t].second == b {
                proof {
                    let found = t as int;
                    assert(joins(self.entries@[found], i, j));
                    let chosen = choose|s: int|
                        0 <= s < self.entries@.len() && joins(#[trigger] self.entries@[s], i, j);
                    if chosen < found {
                        assert(!joins(self.entries@[chosen], i, j));
                    }
                    if chosen > found {
                        assert(!(self.entries@[found].first == self.entries@[chosen].first
                            && self.entries@[found].second == self.entries@[chosen].second));
                    }
                }
                return Some(t);
            }
            t += 1;
        }
        None
    }

    /// Where the pair `(i, j)` stands.
    pub fn state(&self, i: usize, j: usize) -> (r: BondState)
        requires
            self.wf(),
        ensures
            r == self.state_spec(i, j),
    {
        match self.find(i, j) {
            Some(t) => if self.entries[t].bond.broken {
                BondState::Broken
            } else {
                BondState::Active
            },
            None => BondState::Absent,
        }
    }

    /// Bonds the pair `(i, j)` with `bond`. Gives `false`, and changes
    /// nothing, where the two are one entity or the pair has a bond on record.
    pub fn declare(&mut self, i: usize, j: usize, bond: BondData) -> (done: bool)
        requires
            old(self).wf(),
        ensures
            final(self).wf(),
            done == (i != j && old(self).place_spec(i, j).is_none()),
            done ==> final(self).entries@ == old(self).entries@.push(
                BondEntry { first: ordered_spec(i, j).0, second: ordered_spec(i, j).1, bond },
            ),
            !done ==> final(self).entries@ == old(self).entries@,
    {
        if i == j {
            return false;
        }
        match self.find(i, j) {
            Some(_) => false,
            None => {
                let (a, b) = if i <= j { (i, j) } else { (j, i) };
                let entry: BondEntry = BondEntry { first: a, second: b, bond };
                self.entries.push(entry);
                proof {
                    let n = old(self).entries@.len() as int;
                    assert forall|s: int, t: int| 0 <= s < t < self.entries@.len() implies !((
                    #[trigger] self.entries@[s]).first == (#[trigger] self.entries@[t]).first
                        && self.entries@[s].second == self.entries@[t].second) by {
                        if t == n {
                            assert(self.entries@[s] == old(self).entries@[s]);
                            assert(!joins(old(self).entries@[s], i, j));
                        } else {
                            assert(self.entries@[s] == old(self).entries@[s]);
                            assert(self.entries@[t] == old(self).entries@[t]);
                        }
                    }
                }
                true
            },
        }
    }

    /// Takes the broken bonds off the record. The others stay, in their order.
    pub fn sweep(&mut self)
        requires
            old(self).wf(),
        ensures
            final(self).wf(),
            final(self).entries@ == unbroken_spec(old(self).entries@, old(self).entries@.len() as int),
    {
        let n: usize = self.entries.len();
        let mut kept: Vec<BondEntry> = Vec::new();
        let mut t: usize = 0;
        while t < n
            invariant
                *self == *old(self),
                n == self.entries@.len(),
                t <= n,
                kept@ == unbroken_spec(self.entries@, t as int),
            decreases n - t,
        {
            if !self.entries[t].bond.broken {
                kept.push(self.entries[t]);
            }
            t += 1;
        }
        proof {
            lemma_unbroken_wf(old(self).entries@, n as int);
        }
        self.entries = kept;
    }
}

/// The unbroken entries keep the order of the entries: each is an entry, and
/// of two of them the earlier was the earlier entry.
proof fn lemma_unbroken_places(entries: Seq<BondEntry>, upto: int)
    requires
        0 <= upto <= entries.len(),
    ensures
        exists|places: Seq<int>| #[trigger]
            places_of(entries, upto, unbroken_spec(entries, upto), places),
    decreases upto,
{
    if upto <= 0 {
        assert(unbroken_spec(entries, upto) =~= Seq::<BondEntry>::empty());
        assert(places_of(entries, upto, unbroken_spec(entries, upto), Seq::<int>::empty()));
    } else {
        lemma_unbroken_places(entries, upto - 1);
        let prev = unbroken_spec(entries, upto - 1);
        let places = choose|places: Seq<int>| #[trigger] places_of(entries, upto - 1, prev, places);
        if entries[upto - 1].bond.broken {
            assert(places_of(entries, upto, unbroken_spec(entries, upto), places));
        } else {
            let more = places.push(upto - 1);
            assert(places_of(entries, upto, unbroken_spec(entries, upto), more));
        }
    }
}

/// `places` tells for each of `kept` which of the first `upto` entries it is,
/// and grows strictly.
spec fn places_of(entries: Seq<BondEntry>, upto: int, kept: Seq<BondEntry>, places: Seq<int>) -> bool {
    &&& places.len() == kept.len()
    &&& forall|s: int| 0 <= s < kept.len() ==> 0 <= #[trigger] places[s] < upto && kept[s] == entries[places[s]]
    &&& forall|s: int, t: int| 0 <= s < t < kept.len() ==> #[trigger] places[s] < #[trigger] places[t]
}

proof fn lemma_unbroken_wf(entries: Seq<BondEntry>, upto: int)
    requires
        upto == entries.len(),
        bonds_wf(entries),
    ensures
        bonds_wf(unbroken_spec(entries, upto)),
{
    lemma_unbroken_places(entries, upto);
    let kept = unbroken_spec(entries, upto);
    let places = choose|places: Seq<int>| #[trigger] places_of(entries, upto, kept, places);
    assert forall|t: int| 0 <= t < kept.len() implies (#[trigger] kept[t]).first < kept[t].second by {
        let a = places[t];
        assert(0 <= a < upto && kept[t] == entries[a]);
        assert(entries[a].first < entries[a].second);
    }
    assert forall|s: int, t: int| 0 <= s < t < kept.len() implies !((#[trigger] kept[s]).first == (
    #[trigger] kept[t]).first && kept[s].second == kept[t].second) by {
        let a = places[s];
        let b = places[t];
        assert(0 <= a < upto && kept[s] == entries[a]);
        assert(0 <= b < upto && kept[t] == entries[b]);
        assert(a < b);
        assert(!(entries[a].first == entries[b].first && entries[a].second == entries[b].second));
    }
}

} // verus!
