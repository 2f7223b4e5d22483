//! Signed fixed-point scalars.
//!
//! A quantity `x` stands for the real number `x / SCALE`. All operations
//! round toward zero and saturate into `[-FP_MAX, FP_MAX]`, so every
//! function here is total and exactly mirrored by a spec function.

use vstd::prelude::*;

verus! {

/// Fixed-point unit: an `i64` value `x` models the real number `x / SCALE`.
pub const SCALE: i64 = 65536;

/// Saturation bound: every fixed-point result is clamped into
/// `[-FP_MAX, FP_MAX]` (about `2^30` in real terms).
pub const FP_MAX: i64 = 0x4000_0000_0000;

/// Saturation of a mathematical integer into the fixed-point range.
pub open spec fn clamped(x: int) -> int {
    if x > FP_MAX as int {
        FP_MAX as int
    } else if x < -(FP_MAX as int) {
        -(FP_MAX as int)
    } else {
        x
    }
}

pub open spec fn abs_i(x: int) -> int {
    if x < 0 {
        -x
    } else {
        x
    }
}

/// Integer division rounding toward zero.
pub open spec fn div_trunc(a: int, b: int) -> int
    recommends
        b != 0,
{
    if (a >= 0) == (b >= 0) {
        abs_i(a) / abs_i(b)
    } else {
        -(abs_i(a) / abs_i(b))
    }
}

/// Saturating fixed-point addition.
pub open spec fn fadd(a: int, b: int) -> int {
    clamped(a + b)
}

/// Saturating fixed-point subtraction.
pub open spec fn fsub(a: int, b: int) -> int {
    clamped(a - b)
}

/// Saturating fixed-point negation.
pub open spec fn fneg(a: int) -> int {
    clamped(-a)
}

/// Saturating fixed-point multiplication, rounding toward zero.
pub open spec fn fmul(a: int, b: int) -> int {
    clamped(div_trunc(a * b, SCALE as int))
}

/// Saturating fixed-point division, rounding toward zero.
pub open spec fn fdiv(a: int, b: int) -> int
    recommends
        b != 0,
{
    clamped(div_trunc(a * (SCALE as int), b))
}

fn clamp128(x: i128) -> (r: i64)
    ensures
        r as int == clamped(x as int),
{
    if x > FP_MAX as i128 {
        FP_MAX
    } else if x < -(FP_MAX as i128) {
        -FP_MAX
    } else {
        x as i64
    }
}

pub fn fp_add(a: i64, b: i64) -> (r: i64)
    ensures
        r as int == fadd(a as int, b as int),
{
    clamp128(a as i128 + b as i128)
}

pub fn fp_sub(a: i64, b: i64) -> (r: i64)
    ensures
        r as int == fsub(a as int, b as int),
{
    clamp128(a as i128 - b as i128)
}

pub fn fp_neg(a: i64) -> (r: i64)
    ensures
        r as int == fneg(a as int),
{
    clamp128(-(a as i128))
}

pub fn fp_mul(a: i64, b: i64) -> (r: i64)
    ensures
        r as int == fmul(a as int, b as int),
{
    proof {
        assert((-0x8000_0000_0000_0000int) * 0x8000_0000_0000_0000int <= (a as int) * (b as int)
            <= 0x8000_0000_0000_0000int * 0x8000_0000_0000_0000int) by (nonlinear_arith)
            requires
                -0x8000_0000_0000_0000int <= a as int,
                (a as int) < 0x8000_0000_0000_0000int,
                -0x8000_0000_0000_0000int <= b as int,
                (b as int) < 0x8000_0000_0000_0000int,
        ;
    }
    let p: i128 = (a as i128) * (b as i128);
    let neg: bool = p < 0;
    let mag: u128 = if neg {
        (-p) as u128
    } else {
        p as u128
    };
    let q: u128 = mag / (SCALE as u128);
    let qc: i64 = if q > FP_MAX as u128 {
        FP_MAX
    } else {
        q as i64
    };
    if neg {
        -qc
    } else {
        qc
    }
}

pub fn fp_div(a: i64, b: i64) -> (r: i64)
    requires
        b != 0,
    ensures
        r as int == fdiv(a as int, b as int),
{
    proof {
        assert((-0x8000_0000_0000_0000int) * 0x1_0000int <= (a as int) * (SCALE as int)
            <= 0x8000_0000_0000_0000int * 0x1_0000int) by (nonlinear_arith)
            requires
                -0x8000_0000_0000_0000int <= a as int,
                (a as int) < 0x8000_0000_0000_0000int,
        ;
    }
    let p: i128 = (a as i128) * (SCALE as i128);
    let neg: bool = (p < 0) != (b < 0);
    let mag_p: u128 = if p < 0 {
        (-p) as u128
    } else {
        p as u128
    };
    let mag_b: u128 = if b < 0 {
        (-(b as i128)) as u128
    } else {
        b as u128
    };
    let q: u128 = mag_p / mag_b;
    let qc: i64 = if q > FP_MAX as u128 {
        FP_MAX
    } else {
        q as i64
    };
    if neg {
        -qc
    } else {
        qc
    }
}

/// An integer count carried into fixed point, saturating.
pub open spec fn int_to_fp(n: int) -> int {
    clamped(n * (SCALE as int))
}

pub fn fp_from_int(n: i64) -> (r: i64)
    ensures
        r as int == int_to_fp(n as int),
{
    proof {
        assert((-0x8000_0000_0000_0000int) * 0x1_0000int <= (n as int) * (SCALE as int)
            <= 0x8000_0000_0000_0000int * 0x1_0000int) by (nonlinear_arith)
            requires
                -0x8000_0000_0000_0000int <= n as int,
                (n as int) < 0x8000_0000_0000_0000int,
        ;
    }
    clamp128((n as i128) * (SCALE as i128))
}

/// Saturating fixed-point absolute value.
pub open spec fn fabs(a: int) -> int {
    clamped(abs_i(a))
}

pub fn fp_abs(a: i64) -> (r: i64)
    ensures
        r as int == fabs(a as int),
{
    if a < 0 {
        fp_neg(a)
    } else {
        clamp128(a as i128)
    }
}

/// `r` is the integer square root of `x`.
pub open spec fn is_sqrt(x: int, r: int) -> bool {
    &&& 0 <= r
    &&& r * r <= x
    &&& x < (r + 1) * (r + 1)
}

/// The integer square root, as a function.
pub open spec fn sqrt_i(x: int) -> int {
    choose|r: int| is_sqrt(x, r)
}

pub proof fn lemma_is_sqrt_unique(x: int, r1: int, r2: int)
    requires
        is_sqrt(x, r1),
        is_sqrt(x, r2),
    ensures
        r1 == r2,
{
    if r1 < r2 {
        assert((r1 + 1) * (r1 + 1) <= r2 * r2) by (nonlinear_arith)
            requires
                0 <= r1,
                r1 + 1 <= r2,
        ;
    }
    if r2 < r1 {
        assert((r2 + 1) * (r2 + 1) <= r1 * r1) by (nonlinear_arith)
            requires
                0 <= r2,
                r2 + 1 <= r1,
        ;
    }
}

pub proof fn lemma_sqrt_i_is(x: int, r: int)
    requires
        is_sqrt(x, r),
    ensures
        sqrt_i(x) == r,
{
    assert(is_sqrt(x, sqrt_i(x)));
    lemma_is_sqrt_unique(x, r, sqrt_i(x));
}

/// Binary-search integer square root.
pub fn isqrt(x: u128) -> (r: u64)
    requires
        (x as int) < 0x4000_0000_0000_0000_0000_0000_0000_0000int,
    ensures
        is_sqrt(x as int, r as int),
        r as int == sqrt_i(x as int),
{
    let r = if x < 2 {
        x as u64
    } else {
        let mut lo: u128 = 1;
        let mut hi: u128 = 0x8000_0000_0000_0000;
        proof {
            assert((0x8000_0000_0000_0000int) * (0x8000_0000_0000_0000int)
                == 0x4000_0000_0000_0000_0000_0000_0000_0000int) by (nonlinear_arith);
        }
        while lo + 1 < hi
            invariant
                1 <= lo < hi <= 0x8000_0000_0000_0000,
                (lo as int) * (lo as int) <= x as int,
                (x as int) < (hi as int) * (hi as int),
            decreases hi - lo,
        {
            let mid: u128 = lo + (hi - lo) / 2;
            proof {
                assert((mid as int) * (mid as int)
                    < 0x8000_0000_0000_0000int * 0x8000_0000_0000_0000int) by (nonlinear_arith)
                    requires
                        0 <= mid as int,
                        (mid as int) < 0x8000_0000_0000_0000int,
                ;
            }
            if mid * mid <= x {
                lo = mid;
            } else {
                hi = mid;
            }
        }
        lo as u64
    };
    proof {
        if x < 2 {
            assert(is_sqrt(x as int, r as int)) by (nonlinear_arith)
                requires
                    0 <= x as int,
                    (x as int) < 2,
                    r as int == x as int,
            ;
        }
        lemma_sqrt_i_is(x as int, r as int);
    }
    r
}

/// Saturating fixed-point square root of a non-negative value.
pub open spec fn fsqrt(a: int) -> int
    recommends
        a >= 0,
{
    sqrt_i(a * (SCALE as int))
}

pub fn fp_sqrt(a: i64) -> (r: i64)
    requires
        a >= 0,
    ensures
        r as int == fsqrt(a as int),
        is_sqrt((a as int) * (SCALE as int), r as int),
        0 <= r,
{
    proof {
        assert((a as int) * (SCALE as int) < 0x8000_0000_0000_0000_0000int) by (nonlinear_arith)
            requires
                0 <= a as int,
                (a as int) < 0x8000_0000_0000_0000int,
                SCALE as int == 0x1_0000int,
        ;
    }
    let x: u128 = (a as u128) * (SCALE as u128);
    let s = isqrt(x);
    proof {
        assert(is_sqrt(x as int, s as int));
        assert((s as int) * (s as int) <= x as int);
        assert(x as int <= 0x8000_0000_0000_0000_0000int);
        assert(s as int <= 0x1_0000_0000_0000int) by (nonlinear_arith)
            requires
                0 <= s as int,
                (s as int) * (s as int) <= 0x8000_0000_0000_0000_0000int,
        ;
    }
    s as i64
}

} // verus!
