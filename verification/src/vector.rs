//! Three-component vectors and 3x3 tensors of fixed-point scalars.
use vstd::prelude::*;
use crate::fixed::{SCALE, fits, narrow, trunc_div, isqrt, mul_div, mul_div_spec, fx_add, fx_sub,
    wide_magnitude, wide_isqrt};

verus! {

/// A vector of three raw fixed-point components.
#[derive(Clone, Copy, Debug, PartialEq, Eq, Structural)]
pub struct Vec3 {
    pub x: i64,
    pub y: i64,
    pub z: i64,
}

/// Three counts or indices, one per axis.
#[derive(Clone, Copy, Debug, PartialEq, Eq, Structural)]
pub struct Index3 {
    pub x: usize,
    pub y: usize,
    pub z: usize,
}

/// A rotation as a quaternion `w + x i + y j + z k`, of unit length where the
/// components are read as fixed-point numbers.
#[derive(Clone, Copy, Debug, PartialEq, Eq, Structural)]
pub struct Quat {
    pub w: i64,
    pub x: i64,
    pub y: i64,
    pub z: i64,
}

/// A 3x3 tensor, row by row.
#[derive(Clone, Copy, Debug, PartialEq, Eq, Structural)]
pub struct Mat3 {
    pub x: Vec3,
    pub y: Vec3,
    pub z: Vec3,
}

/// A value kept as the difference of two unsigned wide sums, so that a sum of a
/// few full-width products can be held exactly.
#[derive(Clone, Copy, Debug)]
pub struct WideSum {
    pub pos: u128,
    pub neg: u128,
}

impl WideSum {
    /// The integer that the two sums stand for.
    pub open spec fn value(self) -> int {
        self.pos - self.neg
    }

    /// Room is left for `terms` more products.
    pub open spec fn room(self, terms: int) -> bool {
        &&& self.pos + terms * 0x4000_0000_0000_0000_0000_0000_0000_0000 <= u128::MAX
        &&& self.neg + terms * 0x4000_0000_0000_0000_0000_0000_0000_0000 <= u128::MAX
    }

    pub fn zero() -> (s: WideSum)
        ensures
            s.value() == 0,
            s.pos == 0,
            s.neg == 0,
            s.room(3),
    {
        WideSum { pos: 0, neg: 0 }
    }

    /// Adds `a * b`, or subtracts it where `negate` is set.
    pub fn with_product(self, a: i64, b: i64, negate: bool) -> (s: WideSum)
        requires
            self.room(1),
        ensures
            s.value() == self.value() + (if negate { -(a * b) } else { a * b }),
            s.pos <= self.pos + 0x4000_0000_0000_0000_0000_0000_0000_0000,
            s.neg <= self.neg + 0x4000_0000_0000_0000_0000_0000_0000_0000,
            s.pos >= self.pos,
            s.neg >= self.neg,
            (a * b >= 0 && !negate) ==> s.neg == self.neg,
            (a * b >= 0 && negate) ==> s.pos == self.pos,
    {
        let ma: u128 = wide_magnitude(a);
        let mb: u128 = wide_magnitude(b);
        assert(ma * mb <= 0x4000_0000_0000_0000_0000_0000_0000_0000) by (nonlinear_arith)
            requires
                ma <= 0x8000_0000_0000_0000,
                mb <= 0x8000_0000_0000_0000,
        ;
        let prod: u128 = ma * mb;
        let product_negative: bool = (a < 0) != (b < 0) && a != 0 && b != 0;
        proof {
            crate::fixed::lemma_product_magnitude(a as int, b as int);
        }
        if product_negative != negate {
            WideSum { pos: self.pos, neg: self.neg + prod }
        } else {
            WideSum { pos: self.pos + prod, neg: self.neg }
        }
    }

    /// The value divided by `c`, rounded toward zero; `None` where `c` is zero
    /// or the quotient does not fit.
    pub fn div(self, c: i64) -> (r: Option<i64>)
        ensures
            r == (if c == 0 { None } else { narrow(trunc_div(self.value(), c as int)) }),
    {
        if c == 0 {
            return None;
        }
        let mc: u128 = wide_magnitude(c);
        if self.pos >= self.neg {
            let q: u128 = (self.pos - self.neg) / mc;
            proof {
                if q == 0 {
                    assert(trunc_div(self.value(), c as int) == 0);
                }
            }
            crate::fixed::signed_narrow(q, c < 0)
        } else {
            let q: u128 = (self.neg - self.pos) / mc;
            proof {
                if q == 0 {
                    assert(trunc_div(self.value(), c as int) == 0);
                }
            }
            crate::fixed::signed_narrow(q, c > 0)
        }
    }
}

/// The exact dot product of two vectors of raw values.
pub open spec fn dot_raw(a: Vec3, b: Vec3) -> int {
    a.x * b.x + a.y * b.y + a.z * b.z
}

impl Mat3 {
    /// Row `i`, counted from zero.
    pub open spec fn row_spec(self, i: int) -> Vec3 {
        if i == 0 {
            self.x
        } else if i == 1 {
            self.y
        } else {
            self.z
        }
    }

    /// The entry in row `i` and column `j`, counted from zero.
    pub open spec fn at_spec(self, i: int, j: int) -> i64 {
        self.row_spec(i).at_spec(j)
    }

    /// The tensor with the entry in row `i` and column `j` replaced by `v`.
    pub open spec fn with_spec(self, i: int, j: int, v: i64) -> Mat3 {
        if i == 0 {
            Mat3 { x: self.x.with_spec(j, v), ..self }
        } else if i == 1 {
            Mat3 { y: self.y.with_spec(j, v), ..self }
        } else {
            Mat3 { z: self.z.with_spec(j, v), ..self }
        }
    }

    /// The unit tensor.
    pub open spec fn identity_spec() -> Mat3 {
        Mat3 {
            x: Vec3 { x: SCALE, y: 0, z: 0 },
            y: Vec3 { x: 0, y: SCALE, z: 0 },
            z: Vec3 { x: 0, y: 0, z: SCALE },
        }
    }

    pub fn identity() -> (m: Mat3)
        ensures
            m == Mat3::identity_spec(),
    {
        Mat3 {
            x: Vec3 { x: SCALE, y: 0, z: 0 },
            y: Vec3 { x: 0, y: SCALE, z: 0 },
            z: Vec3 { x: 0, y: 0, z: SCALE },
        }
    }

    pub fn at(&self, i: usize, j: usize) -> (v: i64)
        requires
            i < 3,
            j < 3,
        ensures
            v == self.at_spec(i as int, j as int),
    {
        if i == 0 {
            self.x.at(j)
        } else if i == 1 {
            self.y.at(j)
        } else {
            self.z.at(j)
        }
    }

    pub fn with(&self, i: usize, j: usize, v: i64) -> (m: Mat3)
        requires
            i < 3,
            j < 3,
        ensures
            m == self.with_spec(i as int, j as int, v),
    {
        if i == 0 {
            Mat3 { x: self.x.with(j, v), y: self.y, z: self.z }
        } else if i == 1 {
            Mat3 { x: self.x, y: self.y.with(j, v), z: self.z }
        } else {
            Mat3 { x: self.x, y: self.y, z: self.z.with(j, v) }
        }
    }

    pub open spec fn zero_spec() -> Mat3 {
        Mat3 { x: Vec3::zero_spec(), y: Vec3::zero_spec(), z: Vec3::zero_spec() }
    }

    /// Entry-wise sum, where every entry fits.
    pub open spec fn plus_spec(self, o: Mat3) -> Option<Mat3> {
        match (self.x.plus_spec(o.x), self.y.plus_spec(o.y), self.z.plus_spec(o.z)) {
            (Some(x), Some(y), Some(z)) => Some(Mat3 { x, y, z }),
            _ => None,
        }
    }

    /// Every entry multiplied by `k / d` and rounded toward zero.
    pub open spec fn times_spec(self, k: int, d: int) -> Option<Mat3> {
        match (self.x.times_spec(k, d), self.y.times_spec(k, d), self.z.times_spec(k, d)) {
            (Some(x), Some(y), Some(z)) => Some(Mat3 { x, y, z }),
            _ => None,
        }
    }

    pub fn zero() -> (m: Mat3)
        ensures
            m == Mat3::zero_spec(),
    {
        Mat3 { x: Vec3::zero(), y: Vec3::zero(), z: Vec3::zero() }
    }

    pub fn plus(&self, o: &Mat3) -> (r: Option<Mat3>)
        ensures
            r == self.plus_spec(*o),
    {
        let x: Option<Vec3> = self.x.plus(&o.x);
        let y: Option<Vec3> = self.y.plus(&o.y);
        let z: Option<Vec3> = self.z.plus(&o.z);
        let x: Vec3 = x?;
        let y: Vec3 = y?;
        let z: Vec3 = z?;
        Some(Mat3 { x, y, z })
    }

    pub fn times(&self, k: i64, d: i64) -> (r: Option<Mat3>)
        ensures
            r == self.times_spec(k as int, d as int),
    {
        let x: Option<Vec3> = self.x.times(k, d);
        let y: Option<Vec3> = self.y.times(k, d);
        let z: Option<Vec3> = self.z.times(k, d);
        let x: Vec3 = x?;
        let y: Vec3 = y?;
        let z: Vec3 = z?;
        Some(Mat3 { x, y, z })
    }
}

impl Vec3 {
    /// Component `i`, counted from zero.
    pub open spec fn at_spec(self, i: int) -> i64 {
        if i == 0 {
            self.x
        } else if i == 1 {
            self.y
        } else {
            self.z
        }
    }

    /// The vector with component `i` replaced by `v`.
    pub open spec fn with_spec(self, i: int, v: i64) -> Vec3 {
        if i == 0 {
            Vec3 { x: v, ..self }
        } else if i == 1 {
            Vec3 { y: v, ..self }
        } else {
            Vec3 { z: v, ..self }
        }
    }

    pub fn at(&self, i: usize) -> (v: i64)
        requires
            i < 3,
        ensures
            v == self.at_spec(i as int),
    {
        if i == 0 {
            self.x
        } else if i == 1 {
            self.y
        } else {
            self.z
        }
    }

    pub fn with(&self, i: usize, v: i64) -> (r: Vec3)
        requires
            i < 3,
        ensures
            r == self.with_spec(i as int, v),
    {
        if i == 0 {
            Vec3 { x: v, y: self.y, z: self.z }
        } else if i == 1 {
            Vec3 { x: self.x, y: v, z: self.z }
        } else {
            Vec3 { x: self.x, y: self.y, z: v }
        }
    }

    pub open spec fn zero_spec() -> Vec3 {
        Vec3 { x: 0, y: 0, z: 0 }
    }

    /// Component-wise sum, where every component fits.
    pub open spec fn plus_spec(self, o: Vec3) -> Option<Vec3> {
        if fits(self.x + o.x) && fits(self.y + o.y) && fits(self.z + o.z) {
            Some(Vec3 { x: (self.x + o.x) as i64, y: (self.y + o.y) as i64, z: (self.z + o.z) as i64 })
        } else {
            None
        }
    }

    /// Component-wise difference, where every component fits.
    pub open spec fn minus_spec(self, o: Vec3) -> Option<Vec3> {
        if fits(self.x - o.x) && fits(self.y - o.y) && fits(self.z - o.z) {
            Some(Vec3 { x: (self.x - o.x) as i64, y: (self.y - o.y) as i64, z: (self.z - o.z) as i64 })
        } else {
            None
        }
    }

    /// Every component multiplied by `k / d` and rounded toward zero, where
    /// `d != 0` and every component fits.
    pub open spec fn times_spec(self, k: int, d: int) -> Option<Vec3> {
        match (mul_div_spec(self.x as int, k, d), mul_div_spec(self.y as int, k, d), mul_div_spec(self.z as int, k, d)) {
            (Some(x), Some(y), Some(z)) => Some(Vec3 { x, y, z }),
            _ => None,
        }
    }

    /// The fixed-point dot product: the exact sum of products, then one division
    /// by `SCALE`.
    pub open spec fn dot_spec(self, o: Vec3) -> Option<i64> {
        narrow(trunc_div(dot_raw(self, o), SCALE as int))
    }

    /// The fixed-point cross product, each component rounded once.
    pub open spec fn cross_spec(self, o: Vec3) -> Option<Vec3> {
        let cx = trunc_div(self.y * o.z - self.z * o.y, SCALE as int);
        let cy = trunc_div(self.z * o.x - self.x * o.z, SCALE as int);
        let cz = trunc_div(self.x * o.y - self.y * o.x, SCALE as int);
        if fits(cx) && fits(cy) && fits(cz) {
            Some(Vec3 { x: cx as i64, y: cy as i64, z: cz as i64 })
        } else {
            None
        }
    }

    /// The row `self.x * o` of a tensor product, each entry a fixed-point product.
    pub open spec fn x_times_spec(self, o: Vec3) -> Option<Vec3> {
        o.times_spec(self.x as int, SCALE as int)
    }

    /// The row `self.y * o` of a tensor product.
    pub open spec fn y_times_spec(self, o: Vec3) -> Option<Vec3> {
        o.times_spec(self.y as int, SCALE as int)
    }

    /// The row `self.z * o` of a tensor product.
    pub open spec fn z_times_spec(self, o: Vec3) -> Option<Vec3> {
        o.times_spec(self.z as int, SCALE as int)
    }

    /// The Euclidean length, rounded down, where it fits.
    pub open spec fn norm_spec(self) -> Option<i64> {
        narrow(isqrt(dot_raw(self, self)))
    }

    pub fn new(x: i64, y: i64, z: i64) -> (v: Vec3)
        ensures
            v == (Vec3 { x, y, z }),
    {
        Vec3 { x, y, z }
    }

    pub fn zero() -> (v: Vec3)
        ensures
            v == Vec3::zero_spec(),
    {
        Vec3 { x: 0, y: 0, z: 0 }
    }

    pub fn plus(&self, o: &Vec3) -> (r: Option<Vec3>)
        ensures
            r == self.plus_spec(*o),
    {
        let x: i64 = fx_add(self.x, o.x)?;
        let y: i64 = fx_add(self.y, o.y)?;
        let z: i64 = fx_add(self.z, o.z)?;
        Some(Vec3 { x, y, z })
    }

    pub fn minus(&self, o: &Vec3) -> (r: Option<Vec3>)
        ensures
            r == self.minus_spec(*o),
    {
        let x: i64 = fx_sub(self.x, o.x)?;
        let y: i64 = fx_sub(self.y, o.y)?;
        let z: i64 = fx_sub(self.z, o.z)?;
        Some(Vec3 { x, y, z })
    }

    pub fn times(&self, k: i64, d: i64) -> (r: Option<Vec3>)
        ensures
            r == self.times_spec(k as int, d as int),
    {
        let x: i64 = mul_div(self.x, k, d)?;
        let y: i64 = mul_div(self.y, k, d)?;
        let z: i64 = mul_div(self.z, k, d)?;
        Some(Vec3 { x, y, z })
    }

    pub fn x_times(&self, o: &Vec3) -> (r: Option<Vec3>)
        ensures
            r == self.x_times_spec(*o),
    {
        o.times(self.x, SCALE)
    }

    pub fn y_times(&self, o: &Vec3) -> (r: Option<Vec3>)
        ensures
            r == self.y_times_spec(*o),
    {
        o.times(self.y, SCALE)
    }

    pub fn z_times(&self, o: &Vec3) -> (r: Option<Vec3>)
        ensures
            r == self.z_times_spec(*o),
    {
        o.times(self.z, SCALE)
    }

    pub fn dot(&self, o: &Vec3) -> (r: Option<i64>)
        ensures
            r == self.dot_spec(*o),
    {
        let s: WideSum = WideSum::zero().with_product(self.x, o.x, false).with_product(
            self.y,
            o.y,
            false,
        ).with_product(self.z, o.z, false);
        s.div(SCALE)
    }

    pub fn cross(&self, o: &Vec3) -> (r: Option<Vec3>)
        ensures
            r == self.cross_spec(*o),
    {
        let x: i64 = WideSum::zero().with_product(self.y, o.z, false).with_product(
            self.z,
            o.y,
            true,
        ).div(SCALE)?;
        let y: i64 = WideSum::zero().with_product(self.z, o.x, false).with_product(
            self.x,
            o.z,
            true,
        ).div(SCALE)?;
        let z: i64 = WideSum::zero().with_product(self.x, o.y, false).with_product(
            self.y,
            o.x,
            true,
        ).div(SCALE)?;
        Some(Vec3 { x, y, z })
    }

    pub fn norm(&self) -> (r: Option<i64>)
        ensures
            r == self.norm_spec(),
    {
        let s: WideSum = WideSum::zero().with_product(self.x, self.x, false).with_product(
            self.y,
            self.y,
            false,
        ).with_product(self.z, self.z, false);
        proof {
            assert(self.x * self.x >= 0) by (nonlinear_arith);
            assert(self.y * self.y >= 0) by (nonlinear_arith);
            assert(self.z * self.z >= 0) by (nonlinear_arith);
        }
        let root: u128 = wide_isqrt(s.pos);
        crate::fixed::signed_narrow(root, false)
    }
}

} // verus!
