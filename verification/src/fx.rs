//! Saturating fixed-point arithmetic on `i64`.
//!
//! A fixed-point number stores `value * SCALE` as an `i64`; `SCALE` is one
//! million, so the grid is a millionth. Every operation clamps its result to
//! `[-FMAX, FMAX]`, which makes each one a total function with an exact
//! specification: the spec functions below are the model, and each executable
//! operation returns precisely its spec.

use vstd::prelude::*;

verus! {

/// Number of fixed-point units in 1.0.
pub const SCALE: i64 = 1_000_000;

/// Every fixed-point result is clamped into `[-FMAX, FMAX]`.
pub const FMAX: i64 = 1_000_000_000_000;

/// A value the library's arithmetic can produce.
pub open spec fn fx_ok(x: int) -> bool {
    -(FMAX as int) <= x <= FMAX as int
}

/// Clamp into `[-FMAX, FMAX]`.
pub open spec fn sat_s(x: int) -> int {
    if x > FMAX as int {
        FMAX as int
    } else if x < -(FMAX as int) {
        -(FMAX as int)
    } else {
        x
    }
}

pub open spec fn iabs_s(x: int) -> int {
    if x >= 0 {
        x
    } else {
        -x
    }
}

/// Division truncating toward zero, as the executable code computes it
/// on magnitudes.
pub open spec fn tdiv_s(a: int, b: int) -> int
    recommends
        b != 0,
{
    if (a >= 0) == (b >= 0) {
        iabs_s(a) / iabs_s(b)
    } else {
        -(iabs_s(a) / iabs_s(b))
    }
}

pub open spec fn fxs_add(a: int, b: int) -> int {
    sat_s(a + b)
}

pub open spec fn fxs_sub(a: int, b: int) -> int {
    sat_s(a - b)
}

pub open spec fn fxs_neg(a: int) -> int {
    sat_s(-a)
}

pub open spec fn fxs_mul(a: int, b: int) -> int {
    sat_s(tdiv_s(a * b, SCALE as int))
}

/// Fixed-point quotient; division by zero yields 0, so that every geometric
/// computation stays total. Call sites that care guard the divisor.
pub open spec fn fxs_div(a: int, b: int) -> int {
    if b == 0 {
        0
    } else {
        sat_s(tdiv_s(a * (SCALE as int), b))
    }
}

pub open spec fn fxs_abs(a: int) -> int {
    sat_s(iabs_s(a))
}

pub open spec fn fxs_min(a: int, b: int) -> int {
    if a <= b {
        a
    } else {
        b
    }
}

pub open spec fn fxs_max(a: int, b: int) -> int {
    if a >= b {
        a
    } else {
        b
    }
}

pub open spec fn fxs_clamp(x: int, lo: int, hi: int) -> int {
    if x < lo {
        lo
    } else if x > hi {
        hi
    } else {
        x
    }
}

/// `r` is the integer square root of `x`.
pub open spec fn is_isqrt(x: int, r: int) -> bool {
    0 <= r && r * r <= x < (r + 1) * (r + 1)
}

/// The integer square root of a nonnegative `x` (0 below zero).
pub open spec fn isqrt_s(x: int) -> int {
    if x < 0 {
        0
    } else {
        choose|r: int| is_isqrt(x, r)
    }
}

/// Fixed-point square root: negative inputs map to 0.
pub open spec fn fxs_sqrt(x: int) -> int {
    if x <= 0 {
        0
    } else {
        sat_s(isqrt_s(x * (SCALE as int)))
    }
}

pub proof fn lemma_isqrt_exists(x: int)
    requires
        x >= 0,
    ensures
        is_isqrt(x, isqrt_s(x)),
    decreases x,
{
    if x == 0 {
        assert(is_isqrt(0, 0));
    } else {
        lemma_isqrt_exists(x - 1);
        let r = isqrt_s(x - 1);
        assert(is_isqrt(x, r) || is_isqrt(x, r + 1)) by (nonlinear_arith)
            requires
                is_isqrt(x - 1, r),
        ;
    }
    assert(exists|r: int| is_isqrt(x, r));
}

pub proof fn lemma_isqrt_unique(x: int, r1: int, r2: int)
    by (nonlinear_arith)
    requires
        is_isqrt(x, r1),
        is_isqrt(x, r2),
    ensures
        r1 == r2,
{
}

/// Any root satisfying the characterization is `isqrt_s`.
pub proof fn lemma_isqrt_is(x: int, r: int)
    requires
        x >= 0,
        is_isqrt(x, r),
    ensures
        isqrt_s(x) == r,
{
    lemma_isqrt_exists(x);
    lemma_isqrt_unique(x, isqrt_s(x), r);
}

/// Division bracket for a nonnegative numerator: the quotient times the
/// divisor falls within one divisor below the numerator.
pub proof fn lemma_div_bounds(a: int, d: int)
    requires
        a >= 0,
        d > 0,
    ensures
        d * (a / d) <= a,
        a < d * (a / d) + d,
{
    vstd::arithmetic::div_mod::lemma_fundamental_div_mod(a, d);
    vstd::arithmetic::div_mod::lemma_mod_bound(a, d);
}

/// Truncating division leaves a remainder smaller than the divisor.
pub proof fn lemma_tdiv_rem(a: int, d: int)
    requires
        d != 0,
    ensures
        iabs_s(a - d * tdiv_s(a, d)) < iabs_s(d),
{
    let aa = iabs_s(a);
    let ad = iabs_s(d);
    let q = aa / ad;
    lemma_div_bounds(aa, ad);
    if (a >= 0) == (d >= 0) {
        assert(d * q == if d >= 0 {
            ad * q
        } else {
            -(ad * q)
        }) by (nonlinear_arith)
            requires
                ad == iabs_s(d),
                iabs_s(d) == if d >= 0 {
                    d
                } else {
                    -d
                },
        ;
    } else {
        assert(d * (-q) == if d >= 0 {
            -(ad * q)
        } else {
            ad * q
        }) by (nonlinear_arith)
            requires
                ad == iabs_s(d),
                iabs_s(d) == if d >= 0 {
                    d
                } else {
                    -d
                },
        ;
    }
}

/// Truncating division is monotone in the numerator.
pub proof fn lemma_tdiv_monotone(x: int, y: int, d: int)
    requires
        d > 0,
        x <= y,
    ensures
        tdiv_s(x, d) <= tdiv_s(y, d),
{
    if x >= 0 {
        vstd::arithmetic::div_mod::lemma_div_is_ordered(x, y, d);
    } else if y < 0 {
        vstd::arithmetic::div_mod::lemma_div_is_ordered(-y, -x, d);
    } else {
        vstd::arithmetic::div_mod::lemma_div_pos_is_pos(-x, d);
        vstd::arithmetic::div_mod::lemma_div_pos_is_pos(y, d);
    }
}

/// Fixed-point division by a nonnegative divisor is monotone in the
/// numerator.
pub proof fn lemma_fxs_div_monotone(x: int, y: int, d: int)
    requires
        x <= y,
        d >= 0,
    ensures
        fxs_div(x, d) <= fxs_div(y, d),
{
    if d != 0 {
        lemma_tdiv_monotone(x * (SCALE as int), y * (SCALE as int), d);
    }
}

/// Truncating division is odd in the numerator.
pub proof fn lemma_tdiv_neg(p: int, d: int)
    requires
        d != 0,
    ensures
        tdiv_s(-p, d) == -tdiv_s(p, d),
{
}

/// Clamping is odd.
pub proof fn lemma_sat_neg(q: int)
    ensures
        sat_s(-q) == -sat_s(q),
{
}

/// A fixed-point square is nonnegative.
pub proof fn lemma_fxs_mul_square_nonneg(x: int)
    ensures
        fxs_mul(x, x) >= 0,
{
    assert(x * x >= 0) by (nonlinear_arith);
    if x * x > 0 {
        vstd::arithmetic::div_mod::lemma_div_pos_is_pos(x * x, SCALE as int);
    }
}

/// The fixed-point square root is nonnegative.
pub proof fn lemma_fxs_sqrt_nonneg(x: int)
    ensures
        fxs_sqrt(x) >= 0,
{
    if x > 0 {
        lemma_isqrt_exists(x * (SCALE as int));
    }
}

/// Negating one fixed-point factor negates the product.
pub proof fn lemma_fxs_mul_neg_left(a: int, b: int)
    requires
        fx_ok(a),
    ensures
        fxs_mul(fxs_neg(a), b) == -fxs_mul(a, b),
{
    assert(fxs_neg(a) == -a);
    assert((-a) * b == -(a * b)) by (nonlinear_arith);
    lemma_tdiv_neg(a * b, SCALE as int);
    lemma_sat_neg(tdiv_s(a * b, SCALE as int));
}

fn sat64(q: i128) -> (r: i64)
    ensures
        r as int == sat_s(q as int),
{
    if q > FMAX as i128 {
        FMAX
    } else if q < -(FMAX as i128) {
        -FMAX
    } else {
        q as i64
    }
}

/// Truncating signed division, computed on magnitudes.
fn div_trunc_i128(p: i128, d: i128) -> (q: i128)
    requires
        d != 0,
        p > i128::MIN,
        d > i128::MIN,
    ensures
        q as int == tdiv_s(p as int, d as int),
{
    let pa: u128 = if p >= 0 {
        p as u128
    } else {
        (-p) as u128
    };
    let da: u128 = if d >= 0 {
        d as u128
    } else {
        (-d) as u128
    };
    let qa: u128 = pa / da;
    proof {
        assert(qa <= pa) by (nonlinear_arith)
            requires
                da >= 1,
                qa == pa as int / da as int,
        ;
    }
    if (p >= 0) == (d >= 0) {
        qa as i128
    } else {
        -(qa as i128)
    }
}

pub fn fx_add(a: i64, b: i64) -> (r: i64)
    ensures
        r as int == fxs_add(a as int, b as int),
{
    sat64((a as i128) + (b as i128))
}

pub fn fx_sub(a: i64, b: i64) -> (r: i64)
    ensures
        r as int == fxs_sub(a as int, b as int),
{
    sat64((a as i128) - (b as i128))
}

pub fn fx_neg(a: i64) -> (r: i64)
    ensures
        r as int == fxs_neg(a as int),
{
    sat64(-(a as i128))
}

pub fn fx_mul(a: i64, b: i64) -> (r: i64)
    ensures
        r as int == fxs_mul(a as int, b as int),
{
    proof {
        assert((a as int) * (b as int) <= 0x40000000000000000000000000000000int
            && (a as int) * (b as int) >= -0x40000000000000000000000000000000int) by (nonlinear_arith)
            requires
                -0x8000000000000000int <= a as int <= 0x7fffffffffffffffint,
                -0x8000000000000000int <= b as int <= 0x7fffffffffffffffint,
        ;
    }
    let p: i128 = (a as i128) * (b as i128);
    let q: i128 = div_trunc_i128(p, SCALE as i128);
    sat64(q)
}

pub fn fx_div(a: i64, b: i64) -> (r: i64)
    ensures
        r as int == fxs_div(a as int, b as int),
{
    if b == 0 {
        0
    } else {
        proof {
            assert((a as int) * (SCALE as int) <= 0x40000000000000000000000000000000int
                && (a as int) * (SCALE as int) >= -0x40000000000000000000000000000000int)
                by (nonlinear_arith)
                requires
                    -0x8000000000000000int <= a as int <= 0x7fffffffffffffffint,
            ;
        }
        let p: i128 = (a as i128) * (SCALE as i128);
        let q: i128 = div_trunc_i128(p, b as i128);
        sat64(q)
    }
}

pub fn fx_abs(a: i64) -> (r: i64)
    ensures
        r as int == fxs_abs(a as int),
{
    if a >= 0 {
        sat64(a as i128)
    } else {
        fx_neg(a)
    }
}

pub fn fx_min(a: i64, b: i64) -> (r: i64)
    ensures
        r as int == fxs_min(a as int, b as int),
{
    if a <= b {
        a
    } else {
        b
    }
}

pub fn fx_max(a: i64, b: i64) -> (r: i64)
    ensures
        r as int == fxs_max(a as int, b as int),
{
    if a >= b {
        a
    } else {
        b
    }
}

pub fn fx_clamp(x: i64, lo: i64, hi: i64) -> (r: i64)
    ensures
        r as int == fxs_clamp(x as int, lo as int, hi as int),
{
    if x < lo {
        lo
    } else if x > hi {
        hi
    } else {
        x
    }
}

/// Integer square root by bisection, over the whole of `u128`.
pub(crate) fn isqrt_u128(x: u128) -> (r: u128)
    ensures
        is_isqrt(x as int, r as int),
{
    if x == 0 {
        return 0;
    }
    let mut lo: u128 = 0;
    let mut hi: u128 = 0x10000000000000000;
    proof {
        assert((0x10000000000000000int) * (0x10000000000000000int)
            == 0x100000000000000000000000000000000int) by (nonlinear_arith);
    }
    while lo + 1 < hi
        invariant
            0 <= lo < hi <= 0x10000000000000000,
            (lo as int) * (lo as int) <= x as int,
            (x as int) < (hi as int) * (hi as int),
        decreases hi - lo,
    {
        let mid: u128 = lo + (hi - lo) / 2;
        proof {
            assert((mid as int) * (mid as int) < 0x100000000000000000000000000000000int)
                by (nonlinear_arith)
                requires
                    0 <= mid as int,
                    (mid as int) < 0x10000000000000000int,
            ;
        }
        let sq: u128 = mid * mid;
        if sq <= x {
            lo = mid;
        } else {
            hi = mid;
        }
    }
    proof {
        assert((lo as int) + 1 == hi as int);
    }
    lo
}

pub fn fx_sqrt(x: i64) -> (r: i64)
    ensures
        r as int == fxs_sqrt(x as int),
{
    if x <= 0 {
        return 0;
    }
    proof {
        assert((x as int) * (SCALE as int) <= 0x7fffffffffffffffint * 1_000_000int)
            by (nonlinear_arith)
            requires
                0 < x as int <= 0x7fffffffffffffffint,
        ;
    }
    let xs: u128 = (x as u128) * (SCALE as u128);
    let rq: u128 = isqrt_u128(xs);
    proof {
        lemma_isqrt_is(xs as int, rq as int);
    }
    if rq > FMAX as u128 {
        FMAX
    } else {
        rq as i64
    }
}

} // verus!
