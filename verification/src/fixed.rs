//! Fixed-point scalars: range-checked sums, scaled products and quotients,
//! integer square roots.
use vstd::prelude::*;

verus! {

/// Raw units per whole: the raw value `v` stands for the real number `v / SCALE`.
pub const SCALE: i64 = 1_000_000;

/// The failure of a computation whose exact result has no `i64` representation,
/// or whose divisor is zero.
#[derive(Clone, Copy, Debug, PartialEq, Eq, Structural)]
pub enum NumericError {
    OutOfRange,
}

/// `x` can be stored in an `i64`.
pub open spec fn fits(x: int) -> bool {
    i64::MIN <= x <= i64::MAX
}

/// `x` as a stored value, where it has one.
pub open spec fn narrow(x: int) -> Option<i64> {
    if fits(x) {
        Some(x as i64)
    } else {
        None
    }
}

/// Absolute value.
pub open spec fn magnitude(x: int) -> int {
    if x < 0 {
        -x
    } else {
        x
    }
}

/// The quotient `n / d` rounded toward zero, for `d != 0`.
pub open spec fn trunc_div(n: int, d: int) -> int {
    if (n < 0) == (d < 0) {
        magnitude(n) / magnitude(d)
    } else {
        -(magnitude(n) / magnitude(d))
    }
}

/// `r` is the integer square root of `n`: the largest integer whose square is at most `n`.
pub open spec fn is_isqrt(n: int, r: int) -> bool {
    0 <= r && r * r <= n < (r + 1) * (r + 1)
}

/// The integer square root of `n`, for `n >= 0`.
pub open spec fn isqrt(n: int) -> int {
    choose|r: int| is_isqrt(n, r)
}

/// `a * b / c` rounded toward zero, where `c != 0` and the quotient fits.
pub open spec fn mul_div_spec(a: int, b: int, c: int) -> Option<i64> {
    if c == 0 {
        None
    } else {
        narrow(trunc_div(a * b, c))
    }
}

/// The fixed-point product of two raw values.
pub open spec fn fx_mul_spec(a: int, b: int) -> Option<i64> {
    mul_div_spec(a, b, SCALE as int)
}

/// The fixed-point quotient of two raw values.
pub open spec fn fx_div_spec(a: int, b: int) -> Option<i64> {
    mul_div_spec(a, SCALE as int, b)
}

/// The square root of the product of two raw values, which is the raw value of
/// the square root of the product of the two reals; defined where `a * b >= 0`.
pub open spec fn sqrt_mul_spec(a: int, b: int) -> Option<i64> {
    if a * b < 0 {
        None
    } else {
        narrow(isqrt(a * b))
    }
}

/// Every `n >= 0` has an integer square root.
pub proof fn lemma_isqrt_exists(n: int)
    requires
        n >= 0,
    ensures
        is_isqrt(n, isqrt(n)),
    decreases n,
{
    if n == 0 {
        assert(is_isqrt(0, 0));
    } else {
        lemma_isqrt_exists(n - 1);
        let r = isqrt(n - 1);
        if (r + 1) * (r + 1) <= n {
            assert((r + 2) * (r + 2) > n) by (nonlinear_arith)
                requires
                    0 <= r,
                    n - 1 < (r + 1) * (r + 1),
            ;
            assert(is_isqrt(n, r + 1));
        } else {
            assert(is_isqrt(n, r));
        }
    }
}

/// The integer square root is unique.
pub proof fn lemma_isqrt_unique(n: int, r: int)
    requires
        is_isqrt(n, r),
    ensures
        isqrt(n) == r,
{
    let s = isqrt(n);
    assert(is_isqrt(n, s));
    assert(s == r) by (nonlinear_arith)
        requires
            0 <= r,
            0 <= s,
            r * r <= n < (r + 1) * (r + 1),
            s * s <= n < (s + 1) * (s + 1),
    ;
}

/// A quotient rounded toward zero has the sign of its numerator, for a positive
/// divisor, and is no larger in magnitude.
pub proof fn lemma_trunc_div_sign(n: int, d: int)
    requires
        d > 0,
    ensures
        n >= 0 ==> 0 <= trunc_div(n, d) <= n,
        n <= 0 ==> n <= trunc_div(n, d) <= 0,
        n >= d ==> trunc_div(n, d) >= 1,
        trunc_div(-n, d) == -trunc_div(n, d),
{
    let m = magnitude(n);
    assert(0 <= m / d <= m) by (nonlinear_arith)
        requires
            m >= 0,
            d > 0,
    ;
    assert(m >= d ==> m / d >= 1) by (nonlinear_arith)
        requires
            m >= 0,
            d > 0,
    ;
}

/// The square root of `n` is below `r` exactly where `n` is below `r * r`.
pub proof fn lemma_isqrt_below(n: int, r: int)
    requires
        n >= 0,
        r >= 0,
    ensures
        (isqrt(n) < r) == (n < r * r),
{
    lemma_isqrt_exists(n);
    let s = isqrt(n);
    assert((s < r) == (n < r * r)) by (nonlinear_arith)
        requires
            0 <= s,
            0 <= r,
            s * s <= n < (s + 1) * (s + 1),
    ;
}

/// Stores a wide value where it fits.
pub fn to_i64(x: i128) -> (r: Option<i64>)
    ensures
        r == narrow(x as int),
{
    if x < -9_223_372_036_854_775_808i128 || x > 9_223_372_036_854_775_807i128 {
        None
    } else {
        Some(x as i64)
    }
}

/// The sum, where it fits.
pub fn fx_add(a: i64, b: i64) -> (r: Option<i64>)
    ensures
        r == narrow(a + b),
{
    to_i64(a as i128 + b as i128)
}

/// The difference, where it fits.
pub fn fx_sub(a: i64, b: i64) -> (r: Option<i64>)
    ensures
        r == narrow(a - b),
{
    to_i64(a as i128 - b as i128)
}

/// The absolute value of a stored value, as an unsigned wide integer.
pub fn wide_magnitude(a: i64) -> (m: u128)
    ensures
        m == magnitude(a as int),
        m <= 0x8000_0000_0000_0000,
{
    let w: i128 = a as i128;
    if w < 0 {
        (-w) as u128
    } else {
        w as u128
    }
}

/// Gives a magnitude its sign and stores it where it fits.
pub fn signed_narrow(q: u128, negative: bool) -> (r: Option<i64>)
    ensures
        r == narrow(if negative { -(q as int) } else { q as int }),
{
    if negative {
        if q > 0x8000_0000_0000_0000u128 {
            None
        } else {
            let w: i128 = -(q as i128);
            Some(w as i64)
        }
    } else {
        if q > 0x7fff_ffff_ffff_ffffu128 {
            None
        } else {
            Some(q as i64)
        }
    }
}

pub proof fn lemma_product_magnitude(a: int, b: int)
    ensures
        magnitude(a * b) == magnitude(a) * magnitude(b),
        (a * b < 0) == (a != 0 && b != 0 && ((a < 0) != (b < 0))),
{
    assert(magnitude(a * b) == magnitude(a) * magnitude(b)) by (nonlinear_arith)
        requires
            magnitude(a) == (if a < 0 { -a } else { a }),
            magnitude(b) == (if b < 0 { -b } else { b }),
            magnitude(a * b) == (if a * b < 0 { -(a * b) } else { a * b }),
    ;
    assert((a * b < 0) == (a != 0 && b != 0 && ((a < 0) != (b < 0)))) by (nonlinear_arith);
}

/// `a * b / c`, rounded toward zero; `None` where `c` is zero or the quotient
/// does not fit. The product is formed at full width, so it never overflows.
pub fn mul_div(a: i64, b: i64, c: i64) -> (r: Option<i64>)
    ensures
        r == mul_div_spec(a as int, b as int, c as int),
{
    if c == 0 {
        return None;
    }
    let ma: u128 = wide_magnitude(a);
    let mb: u128 = wide_magnitude(b);
    let mc: u128 = wide_magnitude(c);
    assert(ma * mb <= 0x4000_0000_0000_0000_0000_0000_0000_0000) by (nonlinear_arith)
        requires
            ma <= 0x8000_0000_0000_0000,
            mb <= 0x8000_0000_0000_0000,
    ;
    let prod: u128 = ma * mb;
    let q: u128 = prod / mc;
    let product_negative: bool = (a < 0) != (b < 0) && a != 0 && b != 0;
    let negative: bool = product_negative != (c < 0);
    proof {
        lemma_product_magnitude(a as int, b as int);
        if q == 0 {
            assert(trunc_div(a * b, c as int) == 0);
        }
    }
    signed_narrow(q, negative)
}

/// The fixed-point product `a * b / SCALE`.
pub fn fx_mul(a: i64, b: i64) -> (r: Option<i64>)
    ensures
        r == fx_mul_spec(a as int, b as int),
{
    mul_div(a, b, SCALE)
}

/// The fixed-point quotient `a * SCALE / b`.
pub fn fx_div(a: i64, b: i64) -> (r: Option<i64>)
    ensures
        r == fx_div_spec(a as int, b as int),
{
    mul_div(a, SCALE, b)
}

/// The integer square root of a wide unsigned value, by bisection.
pub fn wide_isqrt(n: u128) -> (r: u128)
    ensures
        r == isqrt(n as int),
        r < 0x1_0000_0000_0000_0000,
{
    let mut lo: u128 = 0;
    let mut hi: u128 = 0x1_0000_0000_0000_0000;
    assert(hi * hi > n) by (nonlinear_arith)
        requires
            hi == 0x1_0000_0000_0000_0000,
            n <= u128::MAX,
    ;
    while hi - lo > 1
        invariant
            lo < hi <= 0x1_0000_0000_0000_0000,
            lo * lo <= n < hi * hi,
        decreases hi - lo,
    {
        let mid: u128 = lo + (hi - lo) / 2;
        assert(mid * mid <= u128::MAX) by (nonlinear_arith)
            requires
                mid < 0x1_0000_0000_0000_0000,
        ;
        if mid * mid <= n {
            lo = mid;
        } else {
            hi = mid;
        }
    }
    proof {
        assert(hi == lo + 1);
        lemma_isqrt_unique(n as int, lo as int);
    }
    lo
}

/// The square root of `a * b`; `None` where the product is negative or the root
/// does not fit.
pub fn sqrt_mul(a: i64, b: i64) -> (r: Option<i64>)
    ensures
        r == sqrt_mul_spec(a as int, b as int),
{
    let negative: bool = (a < 0) != (b < 0) && a != 0 && b != 0;
    proof {
        lemma_product_magnitude(a as int, b as int);
    }
    if negative {
        return None;
    }
    let ma: u128 = wide_magnitude(a);
    let mb: u128 = wide_magnitude(b);
    assert(ma * mb <= 0x4000_0000_0000_0000_0000_0000_0000_0000) by (nonlinear_arith)
        requires
            ma <= 0x8000_0000_0000_0000,
            mb <= 0x8000_0000_0000_0000,
    ;
    let root: u128 = wide_isqrt(ma * mb);
    signed_narrow(root, false)
}

} // verus!
