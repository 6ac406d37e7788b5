//! Fixed-point scalars: `i64` values carrying 32 fractional bits.
//!
//! Every continuous quantity in the simulation (coordinates, field values,
//! damping coefficients) is an `i64` holding `round(value * FX_ONE)`.
//! Arithmetic saturates at the `i64` range instead of aborting, matching the
//! design rule that visualization-facing numeric code degrades gracefully.

use vstd::prelude::*;

verus! {

/// The unit of the fixed-point representation: 2^32.
pub const FX_ONE: i64 = 4294967296;

/// Absolute value over the mathematical integers.
pub open spec fn abs_i(a: int) -> int {
    if a >= 0 {
        a
    } else {
        -a
    }
}

/// Clamp a mathematical integer into the `i64` range.
pub open spec fn sat64(x: int) -> int {
    if x > i64::MAX {
        i64::MAX as int
    } else if x < i64::MIN {
        i64::MIN as int
    } else {
        x
    }
}

/// Division truncating toward zero (the rounding of machine division),
/// with the convention that division by zero yields zero.
pub open spec fn div_trunc(a: int, b: int) -> int {
    if b == 0 {
        0
    } else if (a >= 0) == (b >= 0) {
        abs_i(a) / abs_i(b)
    } else {
        -(abs_i(a) / abs_i(b))
    }
}

/// The fixed-point product: truncated toward zero, saturated at i64.
pub open spec fn spec_fx_mul(a: int, b: int) -> int {
    sat64(div_trunc(a * b, FX_ONE as int))
}

/// The fixed-point quotient: truncated toward zero, saturated at i64;
/// zero when the divisor is zero.
pub open spec fn spec_fx_div(a: int, b: int) -> int {
    if b == 0 {
        0
    } else {
        sat64(div_trunc(a * (FX_ONE as int), b))
    }
}

/// The saturating sum.
pub open spec fn spec_fx_add(a: int, b: int) -> int {
    sat64(a + b)
}

/// The saturating difference.
pub open spec fn spec_fx_sub(a: int, b: int) -> int {
    sat64(a - b)
}

/// Saturate an `i128` into the `i64` range.
pub(crate) fn sat_narrow(x: i128) -> (r: i64)
    ensures
        r == sat64(x as int),
{
    if x > i64::MAX as i128 {
        i64::MAX
    } else if x < i64::MIN as i128 {
        i64::MIN
    } else {
        x as i64
    }
}

/// Quotient of an `i128` by a positive divisor, truncated toward zero.
pub(crate) fn div_trunc_i128(p: i128, d: i128) -> (q: i128)
    requires
        d > 0,
        p > i128::MIN,
    ensures
        q == div_trunc(p as int, d as int),
        abs_i(q as int) <= abs_i(p as int),
{
    if p >= 0 {
        let q = p / d;
        proof {
            vstd::arithmetic::div_mod::lemma_div_is_ordered_by_denominator(p as int, 1, d as int);
            vstd::arithmetic::div_mod::lemma_div_by_multiple(p as int, 1);
        }
        q
    } else {
        let m = -p;
        let q = m / d;
        proof {
            vstd::arithmetic::div_mod::lemma_div_is_ordered_by_denominator(m as int, 1, d as int);
            vstd::arithmetic::div_mod::lemma_div_by_multiple(m as int, 1);
        }
        -q
    }
}

/// Product of two `i128` values of which one is small; never overflows.
pub(crate) fn mul_small_i128(a: i128, b: i128) -> (r: i128)
    requires
        abs_i(a as int) <= 0x2_0000_0000,
        abs_i(b as int) <= 0x8000_0000_0000_0000,
    ensures
        r == a as int * b as int,
        abs_i(r as int) <= 0x1_0000_0000_0000_0000_0000_0000,
{
    proof {
        assert(a as int * b as int <= 0x1_0000_0000_0000_0000_0000_0000int
            && a as int * b as int >= -0x1_0000_0000_0000_0000_0000_0000int)
            by (nonlinear_arith)
            requires
                abs_i(a as int) <= 0x2_0000_0000,
                abs_i(b as int) <= 0x8000_0000_0000_0000,
        ;
    }
    a * b
}

/// The fixed-point product of two scalars.
pub fn fx_mul(a: i64, b: i64) -> (r: i64)
    ensures
        r == spec_fx_mul(a as int, b as int),
{
    proof {
        assert((a as int) * (b as int) <= 0x4000_0000_0000_0000_0000_0000_0000_0000int
            && (a as int) * (b as int) >= -0x4000_0000_0000_0000_0000_0000_0000_0000int)
            by (nonlinear_arith)
            requires
                -0x8000_0000_0000_0000int <= a <= 0x7fff_ffff_ffff_ffffint,
                -0x8000_0000_0000_0000int <= b <= 0x7fff_ffff_ffff_ffffint,
        ;
    }
    let p: i128 = (a as i128) * (b as i128);
    let q = div_trunc_i128(p, FX_ONE as i128);
    sat_narrow(q)
}

/// The fixed-point quotient of two scalars; zero when the divisor is zero.
pub fn fx_div(a: i64, b: i64) -> (r: i64)
    ensures
        r == spec_fx_div(a as int, b as int),
{
    if b == 0 {
        return 0;
    }
    proof {
        assert((a as int) * (FX_ONE as int) <= 0x4000_0000_0000_0000_0000_0000_0000_0000int
            && (a as int) * (FX_ONE as int) >= -0x4000_0000_0000_0000_0000_0000_0000_0000int)
            by (nonlinear_arith)
            requires
                -0x8000_0000_0000_0000int <= a <= 0x7fff_ffff_ffff_ffffint,
        ;
    }
    let p: i128 = (a as i128) * (FX_ONE as i128);
    let (num, den): (i128, i128) = if b >= 0 {
        (p, b as i128)
    } else {
        (-p, -(b as i128))
    };
    proof {
        assert(div_trunc(num as int, den as int) == div_trunc(p as int, b as int));
    }
    let q = div_trunc_i128(num, den);
    sat_narrow(q)
}

/// The saturating sum of two scalars.
pub fn fx_add(a: i64, b: i64) -> (r: i64)
    ensures
        r == spec_fx_add(a as int, b as int),
{
    sat_narrow(a as i128 + b as i128)
}

/// The saturating difference of two scalars.
pub fn fx_sub(a: i64, b: i64) -> (r: i64)
    ensures
        r == spec_fx_sub(a as int, b as int),
{
    sat_narrow(a as i128 - b as i128)
}

/// The absolute value, saturated (so that the absolute value of the
/// smallest `i64` stays representable).
pub fn fx_abs(a: i64) -> (r: i64)
    ensures
        r == sat64(abs_i(a as int)),
{
    if a >= 0 {
        a
    } else if a == i64::MIN {
        i64::MAX
    } else {
        -a
    }
}

/// True when r is the integer square root of n rounded down.
pub open spec fn is_isqrt(n: int, r: int) -> bool {
    r >= 0 && r * r <= n && n < (r + 1) * (r + 1)
}

/// The integer square root of n, rounded down (for n >= 0).
pub open spec fn spec_isqrt(n: int) -> int {
    choose|r: int| #[trigger] is_isqrt(n, r)
}

/// Every nonnegative integer has an integer square root.
pub proof fn lemma_isqrt_exists(n: int)
    requires
        n >= 0,
    ensures
        exists|r: int| #[trigger] is_isqrt(n, r),
    decreases n,
{
    if n == 0 {
        assert(is_isqrt(0, 0));
    } else {
        lemma_isqrt_exists(n - 1);
        let r = choose|r: int| #[trigger] is_isqrt(n - 1, r);
        if n < (r + 1) * (r + 1) {
            assert(is_isqrt(n, r));
        } else {
            assert(n == (r + 1) * (r + 1));
            assert((r + 1) * (r + 1) < (r + 2) * (r + 2)) by (nonlinear_arith)
                requires
                    r >= 0,
            ;
            assert(is_isqrt(n, r + 1));
        }
    }
}

/// The integer square root is unique.
pub proof fn lemma_isqrt_unique(n: int, a: int, b: int)
    requires
        is_isqrt(n, a),
        is_isqrt(n, b),
    ensures
        a == b,
{
    assert(a == b) by (nonlinear_arith)
        requires
            a >= 0 && a * a <= n && n < (a + 1) * (a + 1),
            b >= 0 && b * b <= n && n < (b + 1) * (b + 1),
    ;
}

/// The square root of a fixed-point scalar: `isqrt(a * FX_ONE)` carries
/// 32 fractional bits again; zero for a negative argument.
pub open spec fn spec_fx_sqrt(a: int) -> int {
    if a >= 0 {
        spec_isqrt(a * (FX_ONE as int))
    } else {
        0
    }
}

/// The square root of a fixed-point scalar; zero for a negative argument.
pub fn fx_sqrt(a: i64) -> (r: i64)
    ensures
        r == spec_fx_sqrt(a as int),
        r >= 0,
{
    if a < 0 {
        return 0;
    }
    proof {
        assert((a as int) * (FX_ONE as int) < 0x1_0000_0000_0000_0000_0000_0000int)
            by (nonlinear_arith)
            requires
                0 <= a < 0x8000_0000_0000_0000int,
        ;
    }
    let n: u128 = (a as u128) * (FX_ONE as u128);
    let ghost ni = n as int;
    proof {
        assert(ni == a as int * (FX_ONE as int));
        lemma_isqrt_exists(ni);
    }
    let mut lo: u128 = 0;
    let mut hi: u128 = 0x1_0000_0000_0000;
    proof {
        assert((hi as int) * (hi as int) > ni) by (nonlinear_arith)
            requires
                hi == 0x1_0000_0000_0000u128,
                ni < 0x1_0000_0000_0000_0000_0000_0000,
        ;
    }
    while lo + 1 < hi
        invariant
            lo < hi <= 0x1_0000_0000_0000u128,
            ni == n as int,
            (lo as int) * (lo as int) <= ni,
            ni < (hi as int) * (hi as int),
        decreases hi - lo,
    {
        let mid: u128 = lo + (hi - lo) / 2;
        proof {
            assert(mid * mid < 0x1_0000_0000_0000_0000_0000_0000_0000u128) by (nonlinear_arith)
                requires
                    mid < 0x1_0000_0000_0000u128,
            ;
        }
        if mid * mid <= n {
            lo = mid;
        } else {
            hi = mid;
        }
    }
    proof {
        assert(is_isqrt(ni, lo as int));
        let r = choose|r: int| #[trigger] is_isqrt(ni, r);
        lemma_isqrt_unique(ni, lo as int, r);
        assert(lo < 0x1_0000_0000_0000u128);
    }
    lo as i64
}

/// The sign of a scalar: -1, 0 or 1.
pub open spec fn spec_signum(a: int) -> int {
    if a > 0 {
        1
    } else if a < 0 {
        -1
    } else {
        0
    }
}

/// The sign of a scalar: -1, 0 or 1.
pub fn fx_signum(a: i64) -> (r: i64)
    ensures
        r == spec_signum(a as int),
{
    if a > 0 {
        1
    } else if a < 0 {
        -1
    } else {
        0
    }
}

} // verus!
