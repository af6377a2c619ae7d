//! Fixed-point scalar arithmetic for the layout engine.
//!
//! A scalar is an `i64` holding fixed-point units: the raw value `v` stands
//! for the real number `v / FX_ONE`, with `FX_ONE` raw units to 1.0.  Multiplication and division truncate toward
//! zero, and every operation saturates at the bounds of `i64`, so the
//! operations are total: a diverging simulation clamps instead of aborting.

use vstd::prelude::*;

verus! {

/// Number of raw units in 1.0: raw value `v` stands for `v / FX_ONE`.
///
/// One raw unit is 1e-12, so a product whose real value is smaller than
/// one raw unit truncates to exactly zero: that is the resolution limit of
/// every operation below.
pub const FX_ONE: i64 = 1000000000000;

/// Clamps an unbounded integer into the range of `i64`.
pub open spec fn sat64(v: int) -> int {
    if v > i64::MAX {
        i64::MAX as int
    } else if v < i64::MIN {
        i64::MIN as int
    } else {
        v
    }
}

/// Quotient of `p / d` truncated toward zero (the rounding that `i64`
/// division performs), as opposed to the floor division of spec `/`.
pub open spec fn div_to_zero(p: int, d: int) -> int
    recommends
        d != 0,
{
    let q = vstd::math::abs(p) / vstd::math::abs(d);
    if (p < 0) != (d < 0) {
        -q
    } else {
        q as int
    }
}

/// Fixed-point product: `a * b` rescaled by `FX_ONE`, truncated toward zero
/// and saturated to `i64`.
pub open spec fn fx_mul_v(a: int, b: int) -> int {
    sat64(div_to_zero(a * b, FX_ONE as int))
}

/// Fixed-point quotient: `a / b` rescaled by `FX_ONE`, truncated toward zero
/// and saturated to `i64`.
pub open spec fn fx_div_v(a: int, b: int) -> int
    recommends
        b != 0,
{
    sat64(div_to_zero(a * (FX_ONE as int), b))
}

/// Clamps an `i128` into `i64` range.
fn clamp_i128(v: i128) -> (r: i64)
    ensures
        r as int == sat64(v as int),
{
    if v > i64::MAX as i128 {
        i64::MAX
    } else if v < i64::MIN as i128 {
        i64::MIN
    } else {
        v as i64
    }
}

/// Saturating addition of two scalars.
pub fn fx_add(a: i64, b: i64) -> (r: i64)
    ensures
        r as int == sat64(a + b),
{
    clamp_i128(a as i128 + b as i128)
}

/// Saturating subtraction of two scalars.
pub fn fx_sub(a: i64, b: i64) -> (r: i64)
    ensures
        r as int == sat64(a - b),
{
    clamp_i128(a as i128 - b as i128)
}

/// Saturating negation of a scalar.
pub fn fx_neg(a: i64) -> (r: i64)
    ensures
        r as int == sat64(-a),
{
    clamp_i128(-(a as i128))
}

/// Divides `p` by `d`, truncating toward zero, and saturates into `i64`.
fn div_trunc_sat(p: i128, d: i128) -> (r: i64)
    requires
        d != 0,
        -0x40000000000000000000000000000000 <= p <= 0x40000000000000000000000000000000,
        i64::MIN <= d <= i64::MAX || d == FX_ONE as i128,
    ensures
        r as int == sat64(div_to_zero(p as int, d as int)),
{
    let p_neg: bool = p < 0;
    let d_neg: bool = d < 0;
    let pm: u128 = if p_neg {
        (-p) as u128
    } else {
        p as u128
    };
    let dm: u128 = if d_neg {
        (-d) as u128
    } else {
        d as u128
    };
    assert(pm == vstd::math::abs(p as int));
    assert(dm == vstd::math::abs(d as int));
    let q: u128 = pm / dm;
    assert(q == vstd::math::abs(p as int) / vstd::math::abs(d as int));
    if p_neg != d_neg {
        if q >= 9223372036854775808u128 {
            assert(div_to_zero(p as int, d as int) <= i64::MIN);
            i64::MIN
        } else {
            let qi: i64 = q as i64;
            -qi
        }
    } else {
        if q > i64::MAX as u128 {
            i64::MAX
        } else {
            q as i64
        }
    }
}

/// Fixed-point multiplication, truncating toward zero and saturating.
pub fn fx_mul(a: i64, b: i64) -> (r: i64)
    ensures
        r as int == fx_mul_v(a as int, b as int),
{
    proof {
        assert(-0x40000000000000000000000000000000 <= (a as int) * (b as int)
            <= 0x40000000000000000000000000000000) by (nonlinear_arith)
            requires
                -0x8000000000000000 <= a as int <= 0x7fffffffffffffff,
                -0x8000000000000000 <= b as int <= 0x7fffffffffffffff,
        ;
    }
    let p: i128 = (a as i128) * (b as i128);
    div_trunc_sat(p, FX_ONE as i128)
}

/// Fixed-point division, truncating toward zero and saturating.
pub fn fx_div(a: i64, b: i64) -> (r: i64)
    requires
        b != 0,
    ensures
        r as int == fx_div_v(a as int, b as int),
{
    proof {
        assert(-0x40000000000000000000000000000000 <= (a as int) * (FX_ONE as int)
            <= 0x40000000000000000000000000000000) by (nonlinear_arith)
            requires
                -0x8000000000000000 <= a as int <= 0x7fffffffffffffff,
        ;
    }
    let p: i128 = (a as i128) * (FX_ONE as i128);
    div_trunc_sat(p, b as i128)
}

/// The integer square root: the largest `r` with `r * r <= n`.
pub open spec fn spec_isqrt(n: nat) -> nat
    decreases n,
{
    if n == 0 {
        0
    } else {
        let r = spec_isqrt((n - 1) as nat);
        if (r + 1) * (r + 1) <= n {
            r + 1
        } else {
            r
        }
    }
}

/// `spec_isqrt(n)` is indeed the integer square root of `n`.
pub proof fn lemma_isqrt_bounds(n: nat)
    ensures
        spec_isqrt(n) * spec_isqrt(n) <= n,
        n < (spec_isqrt(n) + 1) * (spec_isqrt(n) + 1),
    decreases n,
{
    let s = spec_isqrt(n);
    if n == 0 {
        assert(s == 0);
        assert(s * s <= n && n < (s + 1) * (s + 1)) by (nonlinear_arith)
            requires
                s == 0,
                n == 0,
        ;
    } else {
        lemma_isqrt_bounds((n - 1) as nat);
        let r = spec_isqrt((n - 1) as nat);
        if (r + 1) * (r + 1) <= n {
            assert(s == r + 1);
            assert(s * s <= n && n < (s + 1) * (s + 1)) by (nonlinear_arith)
                requires
                    s == r + 1,
                    r >= 0,
                    (r + 1) * (r + 1) <= n,
                    n - 1 < (r + 1) * (r + 1),
            ;
        } else {
            assert(s == r);
            assert(s * s <= n && n < (s + 1) * (s + 1)) by (nonlinear_arith)
                requires
                    s == r,
                    r * r <= n - 1,
                    n >= 1,
                    !((r + 1) * (r + 1) <= n),
            ;
        }
    }
}

/// Any `r` within the square-root bounds is `spec_isqrt(n)`.
pub proof fn lemma_isqrt_unique(n: nat, r: nat)
    requires
        r * r <= n,
        n < (r + 1) * (r + 1),
    ensures
        r == spec_isqrt(n),
{
    let s = spec_isqrt(n);
    lemma_isqrt_bounds(n);
    if r < s {
        assert((r + 1) * (r + 1) <= s * s) by (nonlinear_arith)
            requires
                r + 1 <= s,
                r >= 0,
        ;
    }
    if s < r {
        assert((s + 1) * (s + 1) <= r * r) by (nonlinear_arith)
            requires
                s + 1 <= r,
                s >= 0,
        ;
    }
}

/// Integer square root by bisection.
pub fn isqrt_u128(n: u128) -> (r: u128)
    requires
        n < 0x100000000000000000000000000,
    ensures
        r as nat == spec_isqrt(n as nat),
{
    if n == 0 {
        return 0;
    }
    let mut lo: u128 = 0;
    let mut hi: u128 = 4503599627370496;
    proof {
        assert((4503599627370496int) * (4503599627370496int) == 0x100000000000000000000000000int);
    }
    while lo + 1 < hi
        invariant
            0 <= lo < hi <= 4503599627370496,
            (lo as int) * (lo as int) <= n as int,
            (n as int) < (hi as int) * (hi as int),
        decreases hi - lo,
    {
        let mid: u128 = lo + (hi - lo) / 2;
        assert(lo < mid < hi);
        proof {
            assert((mid as int) * (mid as int) <= 0x100000000000000000000000000int)
                by (nonlinear_arith)
                requires
                    0 <= mid as int <= 4503599627370496,
            ;
        }
        if mid * mid <= n {
            lo = mid;
        } else {
            hi = mid;
        }
    }
    proof {
        lemma_isqrt_unique(n as nat, lo as nat);
    }
    lo
}

/// A scalar multiplied by zero is exactly zero, whichever factor is zero.
pub proof fn lemma_fx_mul_zero(a: int)
    ensures
        fx_mul_v(a, 0) == 0,
        fx_mul_v(0, a) == 0,
{
    assert(a * 0 == 0);
    assert(0 * a == 0);
    assert(vstd::math::abs(0) / vstd::math::abs(FX_ONE as int) == 0);
}

/// The square of a scalar is never negative.
pub proof fn lemma_fx_square_nonneg(a: int)
    ensures
        0 <= fx_mul_v(a, a),
{
    assert(a * a >= 0) by (nonlinear_arith);
}

} // verus!
