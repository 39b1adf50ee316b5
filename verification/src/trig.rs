//! Fixed-point trigonometry for the camera's field of view.
//!
//! Sine and cosine are truncated Taylor polynomials evaluated in fixed-point
//! arithmetic; the tangent is their quotient. The polynomials are the model:
//! each executable function returns exactly its spec, and the spec names the
//! polynomial, not the transcendental it approximates.

use vstd::prelude::*;
use crate::fx::{fxs_add, fxs_sub, fxs_mul, fxs_div, fx_add, fx_sub, fx_mul, fx_div, SCALE};

verus! {

/// Fixed-point pi.
pub const PI_FX: i64 = 3_141_593;

/// Fixed-point 180.
pub const DEG_HALF_TURN: i64 = 180_000_000;

pub open spec fn spec_deg_to_rad(d: int) -> int {
    fxs_div(fxs_mul(d, PI_FX as int), DEG_HALF_TURN as int)
}

/// Degrees to radians: `d * pi / 180`.
pub fn deg_to_rad(d: i64) -> (r: i64)
    ensures
        r as int == spec_deg_to_rad(d as int),
{
    fx_div(fx_mul(d, PI_FX), DEG_HALF_TURN)
}

/// The sine polynomial `x - x^3/6 + x^5/120 - x^7/5040 + x^9/362880`,
/// evaluated with fixed-point products.
pub open spec fn spec_sin(x: int) -> int {
    let x2 = fxs_mul(x, x);
    let x3 = fxs_mul(x2, x);
    let x5 = fxs_mul(x3, x2);
    let x7 = fxs_mul(x5, x2);
    let x9 = fxs_mul(x7, x2);
    fxs_add(
        fxs_sub(
            fxs_add(fxs_sub(x, fxs_div(x3, 6 * SCALE as int)), fxs_div(x5, 120 * SCALE as int)),
            fxs_div(x7, 5040 * SCALE as int),
        ),
        fxs_div(x9, 362880 * SCALE as int),
    )
}

/// The cosine polynomial `1 - x^2/2 + x^4/24 - x^6/720 + x^8/40320`.
pub open spec fn spec_cos(x: int) -> int {
    let x2 = fxs_mul(x, x);
    let x4 = fxs_mul(x2, x2);
    let x6 = fxs_mul(x4, x2);
    let x8 = fxs_mul(x6, x2);
    fxs_add(
        fxs_sub(
            fxs_add(fxs_sub(SCALE as int, fxs_div(x2, 2 * SCALE as int)), fxs_div(x4, 24 * SCALE as int)),
            fxs_div(x6, 720 * SCALE as int),
        ),
        fxs_div(x8, 40320 * SCALE as int),
    )
}

pub open spec fn spec_tan(x: int) -> int {
    fxs_div(spec_sin(x), spec_cos(x))
}

pub fn sin_fx(x: i64) -> (r: i64)
    ensures
        r as int == spec_sin(x as int),
{
    let x2: i64 = fx_mul(x, x);
    let x3: i64 = fx_mul(x2, x);
    let x5: i64 = fx_mul(x3, x2);
    let x7: i64 = fx_mul(x5, x2);
    let x9: i64 = fx_mul(x7, x2);
    fx_add(
        fx_sub(
            fx_add(fx_sub(x, fx_div(x3, 6 * SCALE)), fx_div(x5, 120 * SCALE)),
            fx_div(x7, 5040 * SCALE),
        ),
        fx_div(x9, 362880 * SCALE),
    )
}

pub fn cos_fx(x: i64) -> (r: i64)
    ensures
        r as int == spec_cos(x as int),
{
    let x2: i64 = fx_mul(x, x);
    let x4: i64 = fx_mul(x2, x2);
    let x6: i64 = fx_mul(x4, x2);
    let x8: i64 = fx_mul(x6, x2);
    fx_add(
        fx_sub(
            fx_add(fx_sub(SCALE, fx_div(x2, 2 * SCALE)), fx_div(x4, 24 * SCALE)),
            fx_div(x6, 720 * SCALE),
        ),
        fx_div(x8, 40320 * SCALE),
    )
}

/// Tangent as the quotient of the two polynomials; where the cosine
/// polynomial is zero the quotient is 0, as fixed-point division defines it.
pub fn tan_fx(x: i64) -> (r: i64)
    ensures
        r as int == spec_tan(x as int),
{
    let s: i64 = sin_fx(x);
    let c: i64 = cos_fx(x);
    fx_div(s, c)
}

} // verus!
