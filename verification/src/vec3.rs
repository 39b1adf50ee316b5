//! Three-component fixed-point vectors.
//!
//! Components are fixed-point `i64` values (see `fx`); every operation is
//! total and returns exactly the value of its spec function, so contracts up
//! the stack can speak of vector computations verbatim.

use vstd::prelude::*;
use crate::fx::{
    fxs_add, fxs_sub, fxs_neg, fxs_mul, fxs_div, fxs_sqrt, fx_add, fx_sub, fx_neg, fx_mul, fx_div,
    fx_sqrt, iabs_s, isqrt_s, sat_s, SCALE, FMAX,
};
use crate::util::{Rng, spec_rand_sym, spec_rng_next_state};

verus! {

#[derive(Clone, Copy, Debug, PartialEq, Eq, Structural)]
pub struct Vec3 {
    pub x: i64,
    pub y: i64,
    pub z: i64,
}

/// A position is a vector; the distinction is informal and not enforced at
/// runtime.
pub type Point3 = Vec3;

pub open spec fn spec_vadd(a: Vec3, b: Vec3) -> Vec3 {
    Vec3 {
        x: fxs_add(a.x as int, b.x as int) as i64,
        y: fxs_add(a.y as int, b.y as int) as i64,
        z: fxs_add(a.z as int, b.z as int) as i64,
    }
}

pub open spec fn spec_vsub(a: Vec3, b: Vec3) -> Vec3 {
    Vec3 {
        x: fxs_sub(a.x as int, b.x as int) as i64,
        y: fxs_sub(a.y as int, b.y as int) as i64,
        z: fxs_sub(a.z as int, b.z as int) as i64,
    }
}

pub open spec fn spec_vneg(a: Vec3) -> Vec3 {
    Vec3 {
        x: fxs_neg(a.x as int) as i64,
        y: fxs_neg(a.y as int) as i64,
        z: fxs_neg(a.z as int) as i64,
    }
}

/// `k * v` for a fixed-point scalar `k`.
pub open spec fn spec_vscale(k: int, a: Vec3) -> Vec3 {
    Vec3 {
        x: fxs_mul(k, a.x as int) as i64,
        y: fxs_mul(k, a.y as int) as i64,
        z: fxs_mul(k, a.z as int) as i64,
    }
}

/// `v / k` for a fixed-point scalar `k`.
pub open spec fn spec_vdiv(a: Vec3, k: int) -> Vec3 {
    Vec3 {
        x: fxs_div(a.x as int, k) as i64,
        y: fxs_div(a.y as int, k) as i64,
        z: fxs_div(a.z as int, k) as i64,
    }
}

pub open spec fn spec_dot(a: Vec3, b: Vec3) -> int {
    fxs_add(
        fxs_add(fxs_mul(a.x as int, b.x as int), fxs_mul(a.y as int, b.y as int)),
        fxs_mul(a.z as int, b.z as int),
    )
}

pub open spec fn spec_lsq(a: Vec3) -> int {
    spec_dot(a, a)
}

/// The fixed-point length: the integer square root of the exact sum of
/// squared components (components carry one factor of the scale, so the
/// plain root is already on the grid), clamped like every result. Computing
/// from the exact sum keeps normalization sound even where the fixed-point
/// squared length would saturate.
pub open spec fn spec_len(a: Vec3) -> int {
    sat_s(
        isqrt_s(
            (a.x as int) * (a.x as int) + (a.y as int) * (a.y as int) + (a.z as int) * (a.z
                as int),
        ),
    )
}

/// Normalization: divide by the fixed-point length. A zero-length vector maps
/// to zero, as fixed-point division defines it.
pub open spec fn spec_unit(a: Vec3) -> Vec3 {
    spec_vdiv(a, spec_len(a))
}

pub open spec fn spec_cross(a: Vec3, b: Vec3) -> Vec3 {
    Vec3 {
        x: fxs_sub(fxs_mul(a.y as int, b.z as int), fxs_mul(a.z as int, b.y as int)) as i64,
        y: fxs_sub(fxs_mul(a.z as int, b.x as int), fxs_mul(a.x as int, b.z as int)) as i64,
        z: fxs_sub(fxs_mul(a.x as int, b.y as int), fxs_mul(a.y as int, b.x as int)) as i64,
    }
}

/// All components under the grid's resolution, hence exactly zero.
pub open spec fn spec_near_zero(a: Vec3) -> bool {
    a.x == 0 && a.y == 0 && a.z == 0
}

/// Mirror of `v` about the normal `n`: `v - 2*dot(v,n)*n`.
pub open spec fn spec_reflect(v: Vec3, n: Vec3) -> Vec3 {
    spec_vsub(v, spec_vscale(fxs_mul(2 * SCALE as int, spec_dot(v, n)), n))
}

/// Refraction of the unit direction `uv` at a surface with unit normal `n`
/// and refraction-index ratio `ratio`.
pub open spec fn spec_refract(uv: Vec3, n: Vec3, ratio: int) -> Vec3 {
    let cos_theta = crate::fx::fxs_min(spec_dot(spec_vneg(uv), n), SCALE as int);
    let r_out_perp = spec_vscale(ratio, spec_vadd(uv, spec_vscale(cos_theta, n)));
    let r_out_parallel = spec_vscale(
        fxs_neg(fxs_sqrt(crate::fx::fxs_abs(fxs_sub(SCALE as int, spec_lsq(r_out_perp))))),
        n,
    );
    spec_vadd(r_out_perp, r_out_parallel)
}

impl Vec3 {
    pub fn new(x: i64, y: i64, z: i64) -> (r: Vec3)
        ensures
            r == (Vec3 { x, y, z }),
    {
        Vec3 { x, y, z }
    }

    pub fn zero() -> (r: Vec3)
        ensures
            r == (Vec3 { x: 0i64, y: 0i64, z: 0i64 }),
    {
        Vec3::new(0, 0, 0)
    }

    pub fn add(self, other: Vec3) -> (r: Vec3)
        ensures
            r == spec_vadd(self, other),
    {
        Vec3 {
            x: fx_add(self.x, other.x),
            y: fx_add(self.y, other.y),
            z: fx_add(self.z, other.z),
        }
    }

    pub fn sub(self, other: Vec3) -> (r: Vec3)
        ensures
            r == spec_vsub(self, other),
    {
        Vec3 {
            x: fx_sub(self.x, other.x),
            y: fx_sub(self.y, other.y),
            z: fx_sub(self.z, other.z),
        }
    }

    pub fn neg(self) -> (r: Vec3)
        ensures
            r == spec_vneg(self),
    {
        Vec3 { x: fx_neg(self.x), y: fx_neg(self.y), z: fx_neg(self.z) }
    }

    /// `k * self` for a fixed-point scalar.
    pub fn scale(self, k: i64) -> (r: Vec3)
        ensures
            r == spec_vscale(k as int, self),
    {
        Vec3 { x: fx_mul(k, self.x), y: fx_mul(k, self.y), z: fx_mul(k, self.z) }
    }

    /// `self / k` for a fixed-point scalar.
    pub fn div(self, k: i64) -> (r: Vec3)
        ensures
            r == spec_vdiv(self, k as int),
    {
        Vec3 { x: fx_div(self.x, k), y: fx_div(self.y, k), z: fx_div(self.z, k) }
    }

    pub fn dot(a: Vec3, b: Vec3) -> (r: i64)
        ensures
            r as int == spec_dot(a, b),
    {
        fx_add(fx_add(fx_mul(a.x, b.x), fx_mul(a.y, b.y)), fx_mul(a.z, b.z))
    }

    pub fn cross(a: Vec3, b: Vec3) -> (r: Vec3)
        ensures
            r == spec_cross(a, b),
    {
        Vec3 {
            x: fx_sub(fx_mul(a.y, b.z), fx_mul(a.z, b.y)),
            y: fx_sub(fx_mul(a.z, b.x), fx_mul(a.x, b.z)),
            z: fx_sub(fx_mul(a.x, b.y), fx_mul(a.y, b.x)),
        }
    }

    pub fn length_squared(&self) -> (r: i64)
        ensures
            r as int == spec_lsq(*self),
    {
        Vec3::dot(*self, *self)
    }

    pub fn length(&self) -> (r: i64)
        ensures
            r as int == spec_len(*self),
    {
        proof {
            assert((self.x as int) * (self.x as int) <= 0x40000000000000000000000000000000int
                && (self.x as int) * (self.x as int) >= 0
                && (self.y as int) * (self.y as int) <= 0x40000000000000000000000000000000int
                && (self.y as int) * (self.y as int) >= 0
                && (self.z as int) * (self.z as int) <= 0x40000000000000000000000000000000int
                && (self.z as int) * (self.z as int) >= 0) by (nonlinear_arith)
                requires
                    -0x8000000000000000int <= self.x as int <= 0x7fffffffffffffffint,
                    -0x8000000000000000int <= self.y as int <= 0x7fffffffffffffffint,
                    -0x8000000000000000int <= self.z as int <= 0x7fffffffffffffffint,
            ;
        }
        let xx: u128 = ((self.x as i128) * (self.x as i128)) as u128;
        let yy: u128 = ((self.y as i128) * (self.y as i128)) as u128;
        let zz: u128 = ((self.z as i128) * (self.z as i128)) as u128;
        let q: u128 = xx + yy + zz;
        let rq: u128 = crate::fx::isqrt_u128(q);
        proof {
            crate::fx::lemma_isqrt_is(q as int, rq as int);
        }
        if rq > FMAX as u128 {
            FMAX
        } else {
            rq as i64
        }
    }

    pub fn unit_vector(self) -> (r: Vec3)
        ensures
            r == spec_unit(self),
    {
        let l: i64 = self.length();
        self.div(l)
    }

    pub fn near_zero(&self) -> (r: bool)
        ensures
            r == spec_near_zero(*self),
    {
        self.x == 0 && self.y == 0 && self.z == 0
    }

    pub fn reflect(v: Vec3, n: Vec3) -> (r: Vec3)
        ensures
            r == spec_reflect(v, n),
    {
        let d: i64 = Vec3::dot(v, n);
        v.sub(n.scale(fx_mul(2 * SCALE, d)))
    }

    pub fn refract(uv: Vec3, n: Vec3, ratio: i64) -> (r: Vec3)
        ensures
            r == spec_refract(uv, n, ratio as int),
    {
        let cos_theta: i64 = crate::fx::fx_min(Vec3::dot(uv.neg(), n), SCALE);
        let r_out_perp: Vec3 = uv.add(n.scale(cos_theta)).scale(ratio);
        let r_out_parallel: Vec3 = n.scale(
            fx_neg(fx_sqrt(crate::fx::fx_abs(fx_sub(SCALE, r_out_perp.length_squared())))),
        );
        r_out_perp.add(r_out_parallel)
    }
}

/// All components within the saturation range.
pub open spec fn vec_ok(v: Vec3) -> bool {
    crate::fx::fx_ok(v.x as int) && crate::fx::fx_ok(v.y as int) && crate::fx::fx_ok(v.z as int)
}

/// Normalization yields components within the saturation range.
pub proof fn lemma_unit_ok(v: Vec3)
    ensures
        vec_ok(spec_unit(v)),
{
}

/// A squared length is nonnegative.
pub proof fn lemma_lsq_nonneg(v: Vec3)
    ensures
        spec_lsq(v) >= 0,
{
    crate::fx::lemma_fxs_mul_square_nonneg(v.x as int);
    crate::fx::lemma_fxs_mul_square_nonneg(v.y as int);
    crate::fx::lemma_fxs_mul_square_nonneg(v.z as int);
}

/// Tolerance, in grid units, on the squared length of a normalized vector.
pub const UNIT_TOL: i64 = 10;

/// One normalized component: its magnitude brackets `|x| * SCALE / l` and
/// stays a little above one, provided `|x|` is itself within two grid units
/// of `l`.
proof fn lemma_unit_component(x: int, l: int)
    requires
        l >= SCALE as int,
        iabs_s(x) <= l + 2,
    ensures
        iabs_s(fxs_div(x, l)) <= SCALE as int + 2,
        iabs_s(fxs_div(x, l)) * l <= iabs_s(x) * (SCALE as int),
        iabs_s(x) * (SCALE as int) < (iabs_s(fxs_div(x, l)) + 1) * l,
{
    let s = SCALE as int;
    let ax = iabs_s(x);
    let q = (ax * s) / l;
    crate::fx::lemma_div_bounds(ax * s, l);
    assert(l * q <= ax * s && ax * s < l * q + l);
    assert(q >= 0) by (nonlinear_arith)
        requires
            l > 0,
            l * q <= ax * s,
            ax >= 0,
            s > 0,
            ax * s < l * q + l,
    ;
    assert(q <= s + 2) by (nonlinear_arith)
        requires
            l >= s,
            s >= 2,
            ax <= l + 2,
            l * q <= ax * s,
    ;
    assert(l * q == q * l && (q + 1) * l == l * q + l) by (nonlinear_arith);
    assert(iabs_s(fxs_div(x, l)) == q);
}

/// Normalizing a vector whose length is at least one (and under the
/// saturation bound) yields a vector whose squared length is within
/// `UNIT_TOL` grid units of one.
#[verifier::rlimit(100)]
pub proof fn lemma_unit_vector_near_unit(v: Vec3)
    requires
        SCALE as int <= spec_len(v) < FMAX as int,
    ensures
        SCALE as int - UNIT_TOL as int <= spec_lsq(spec_unit(v)),
        spec_lsq(spec_unit(v)) <= SCALE as int + UNIT_TOL as int,
{
    let s = SCALE as int;
    let sx = v.x as int;
    let sy = v.y as int;
    let sz = v.z as int;
    let q = sx * sx + sy * sy + sz * sz;
    assert(0 <= sx * sx && 0 <= sy * sy && 0 <= sz * sz) by (nonlinear_arith);

    // the length brackets the square root of the exact sum
    crate::fx::lemma_isqrt_exists(q);
    let l = spec_len(v);
    assert(l == isqrt_s(q));
    assert(l * l <= q && q < (l + 1) * (l + 1));
    assert(l >= s);
    assert(q <= l * l + 2 * l + 3 * s) by (nonlinear_arith)
        requires
            q < (l + 1) * (l + 1),
            s >= 0,
    ;

    // every component is within two grid units of the length
    assert(sx * sx <= q && sy * sy <= q && sz * sz <= q);
    lemma_comp_le(sx, l, q, s);
    lemma_comp_le(sy, l, q, s);
    lemma_comp_le(sz, l, q, s);

    // normalized components bracket the exact quotients
    lemma_unit_component(sx, l);
    lemma_unit_component(sy, l);
    lemma_unit_component(sz, l);
    let ux = fxs_div(sx, l);
    let uy = fxs_div(sy, l);
    let uz = fxs_div(sz, l);
    assert(spec_unit(v) == (Vec3 { x: ux as i64, y: uy as i64, z: uz as i64 }));

    // upper bound on the sum of normalized squares
    lemma_unit_sq_upper(sx, ux, l);
    lemma_unit_sq_upper(sy, uy, l);
    lemma_unit_sq_upper(sz, uz, l);
    let su = ux * ux + uy * uy + uz * uz;
    assert(ux * ux >= 0 && uy * uy >= 0 && uz * uz >= 0) by (nonlinear_arith);
    assert(su * (l * l) <= q * (s * s)) by (nonlinear_arith)
        requires
            (ux * ux) * (l * l) <= (sx * sx) * (s * s),
            (uy * uy) * (l * l) <= (sy * sy) * (s * s),
            (uz * uz) * (l * l) <= (sz * sz) * (s * s),
            su == ux * ux + uy * uy + uz * uz,
            q == sx * sx + sy * sy + sz * sz,
    ;
    assert(su <= s * s + 5 * s) by (nonlinear_arith)
        requires
            su * (l * l) <= q * (s * s),
            q <= l * l + 2 * l + 3 * s,
            l >= s,
            s >= 14,
            su >= 0,
    ;

    // lower bound on the sum of normalized squares
    lemma_unit_sq_lower(sx, ux, l);
    lemma_unit_sq_lower(sy, uy, l);
    lemma_unit_sq_lower(sz, uz, l);
    assert(q * (s * s) < (su + 2 * (iabs_s(ux) + iabs_s(uy) + iabs_s(uz)) + 3) * (l * l))
        by (nonlinear_arith)
        requires
            (sx * sx) * (s * s) < (ux * ux + 2 * iabs_s(ux) + 1) * (l * l),
            (sy * sy) * (s * s) < (uy * uy + 2 * iabs_s(uy) + 1) * (l * l),
            (sz * sz) * (s * s) < (uz * uz + 2 * iabs_s(uz) + 1) * (l * l),
            su == ux * ux + uy * uy + uz * uz,
            q == sx * sx + sy * sy + sz * sz,
    ;
    assert(su > s * s - 6 * s - 15) by (nonlinear_arith)
        requires
            q * (s * s) < (su + 2 * (iabs_s(ux) + iabs_s(uy) + iabs_s(uz)) + 3) * (l * l),
            l * l <= q,
            iabs_s(ux) <= s + 2,
            iabs_s(uy) <= s + 2,
            iabs_s(uz) <= s + 2,
            l > 0,
            s > 0,
    ;

    // back through the final truncations
    lemma_square_small(ux, s);
    lemma_square_small(uy, s);
    lemma_square_small(uz, s);
    let lu = spec_lsq(spec_unit(v));
    assert(lu == fxs_mul(ux, ux) + fxs_mul(uy, uy) + fxs_mul(uz, uz));
    assert(s * lu <= su && su < s * lu + 3 * s);
}

/// `fxs_mul(x, x)` is exactly `x * x / SCALE`, unsaturated, for `|x|` a
/// little above `cap`.
proof fn lemma_square_small(x: int, cap: int)
    requires
        0 < cap <= SCALE as int,
        iabs_s(x) <= cap + 2,
    ensures
        fxs_mul(x, x) == (x * x) / (SCALE as int),
        (SCALE as int) * fxs_mul(x, x) <= x * x,
        x * x < (SCALE as int) * fxs_mul(x, x) + SCALE as int,
        0 <= fxs_mul(x, x),
        x * x >= 0,
{
    let s = SCALE as int;
    assert(0 <= x * x <= (cap + 2) * (cap + 2)) by (nonlinear_arith)
        requires
            -(cap + 2) <= x <= cap + 2,
            cap > 0,
    ;
    crate::fx::lemma_div_bounds(x * x, s);
    assert((cap + 2) * (cap + 2) <= (s + 2) * (s + 2)) by (nonlinear_arith)
        requires
            0 < cap <= s,
    ;
    assert((s + 2) * (s + 2) == s * s + 4 * s + 4) by (nonlinear_arith);
}

/// A component whose square is at most `q` is within two grid units of `l`.
proof fn lemma_comp_le(x: int, l: int, q: int, s: int)
    requires
        x * x <= q,
        q <= l * l + 2 * l + 3 * s,
        l >= s,
        s >= 9,
    ensures
        iabs_s(x) <= l + 2,
{
    assert(iabs_s(x) <= l + 2) by (nonlinear_arith)
        requires
            x * x <= q,
            q <= l * l + 2 * l + 3 * s,
            l >= s,
            s >= 9,
            iabs_s(x) == if x >= 0 {
                x
            } else {
                -x
            },
    ;
}

/// Squaring the magnitude bracket, upper side.
proof fn lemma_unit_sq_upper(x: int, u: int, l: int)
    requires
        l > 0,
        iabs_s(u) * l <= iabs_s(x) * (SCALE as int),
    ensures
        (u * u) * (l * l) <= (x * x) * ((SCALE as int) * (SCALE as int)),
{
    let s = SCALE as int;
    assert((u * u) * (l * l) <= (x * x) * (s * s)) by (nonlinear_arith)
        requires
            l > 0,
            s > 0,
            iabs_s(u) * l <= iabs_s(x) * s,
            iabs_s(u) == if u >= 0 {
                u
            } else {
                -u
            },
            iabs_s(x) == if x >= 0 {
                x
            } else {
                -x
            },
    ;
}

/// Squaring the magnitude bracket, lower side.
proof fn lemma_unit_sq_lower(x: int, u: int, l: int)
    requires
        l > 0,
        iabs_s(x) * (SCALE as int) < (iabs_s(u) + 1) * l,
    ensures
        (x * x) * ((SCALE as int) * (SCALE as int)) < (u * u + 2 * iabs_s(u) + 1) * (l * l),
{
    let s = SCALE as int;
    assert((x * x) * (s * s) < (u * u + 2 * iabs_s(u) + 1) * (l * l)) by (nonlinear_arith)
        requires
            l > 0,
            s > 0,
            iabs_s(x) * s < (iabs_s(u) + 1) * l,
            iabs_s(u) >= 0,
            iabs_s(u) == if u >= 0 {
                u
            } else {
                -u
            },
            iabs_s(x) == if x >= 0 {
                x
            } else {
                -x
            },
    ;
}

/// Negating a vector with in-range components keeps its squared length.
pub proof fn lemma_lsq_neg(v: Vec3)
    requires
        vec_ok(v),
    ensures
        spec_lsq(spec_vneg(v)) == spec_lsq(v),
{
    assert((-(v.x as int)) * (-(v.x as int)) == (v.x as int) * (v.x as int)) by (nonlinear_arith);
    assert((-(v.y as int)) * (-(v.y as int)) == (v.y as int) * (v.y as int)) by (nonlinear_arith);
    assert((-(v.z as int)) * (-(v.z as int)) == (v.z as int) * (v.z as int)) by (nonlinear_arith);
}

/// The dot product is symmetric.
pub proof fn lemma_dot_comm(a: Vec3, b: Vec3)
    ensures
        spec_dot(a, b) == spec_dot(b, a),
{
    assert((a.x as int) * (b.x as int) == (b.x as int) * (a.x as int)) by (nonlinear_arith);
    assert((a.y as int) * (b.y as int) == (b.y as int) * (a.y as int)) by (nonlinear_arith);
    assert((a.z as int) * (b.z as int) == (b.z as int) * (a.z as int)) by (nonlinear_arith);
}

/// Negating one side of a dot product negates its value exactly, provided
/// the negated side's components are within the saturation range.
pub proof fn lemma_dot_neg_left(a: Vec3, b: Vec3)
    requires
        vec_ok(a),
    ensures
        spec_dot(spec_vneg(a), b) == -spec_dot(a, b),
{
    crate::fx::lemma_fxs_mul_neg_left(a.x as int, b.x as int);
    crate::fx::lemma_fxs_mul_neg_left(a.y as int, b.y as int);
    crate::fx::lemma_fxs_mul_neg_left(a.z as int, b.z as int);
    let mx = fxs_mul(a.x as int, b.x as int);
    let my = fxs_mul(a.y as int, b.y as int);
    let mz = fxs_mul(a.z as int, b.z as int);
    crate::fx::lemma_sat_neg(mx + my);
    crate::fx::lemma_sat_neg(fxs_add(mx, my) + mz);
}

/// Dot product, as a free helper.
pub fn dot(a: Vec3, b: Vec3) -> (r: i64)
    ensures
        r as int == spec_dot(a, b),
{
    Vec3::dot(a, b)
}

/// Attempts a rejection sampler is allowed before it falls back to a fixed
/// unit axis; the stream is deterministic either way.
pub const SAMPLE_TRIES: u64 = 64;

/// One draw of three symmetric components and the state after it.
pub open spec fn spec_sample_cube(s: u64) -> (Vec3, u64) {
    let s1 = spec_rng_next_state(s);
    let s2 = spec_rng_next_state(s1);
    let s3 = spec_rng_next_state(s2);
    (Vec3 { x: spec_rand_sym(s), y: spec_rand_sym(s1), z: spec_rand_sym(s2) }, s3)
}

/// Rejection sampling of a unit vector: draw from the cube, accept when the
/// squared length lands in `(0, 1]`, normalize; after `tries` rejections fall
/// back to the x axis.
pub open spec fn spec_ruv(s: u64, tries: u64) -> (Vec3, u64)
    decreases tries,
{
    let (p, s3) = spec_sample_cube(s);
    if 0 < spec_lsq(p) <= SCALE as int {
        (spec_unit(p), s3)
    } else if tries <= 1 {
        (Vec3 { x: SCALE, y: 0i64, z: 0i64 }, s3)
    } else {
        spec_ruv(s3, (tries - 1) as u64)
    }
}

pub open spec fn spec_random_unit_vector(s: u64) -> (Vec3, u64) {
    spec_ruv(s, SAMPLE_TRIES)
}

/// Rejection sampling in the unit disk: accept a squared length under 1;
/// after `tries` rejections fall back to the center.
pub open spec fn spec_rud(s: u64, tries: u64) -> (Vec3, u64)
    decreases tries,
{
    let s1 = spec_rng_next_state(s);
    let s2 = spec_rng_next_state(s1);
    let p = Vec3 { x: spec_rand_sym(s), y: spec_rand_sym(s1), z: 0i64 };
    if spec_lsq(p) < SCALE as int {
        (p, s2)
    } else if tries <= 1 {
        (Vec3 { x: 0i64, y: 0i64, z: 0i64 }, s2)
    } else {
        spec_rud(s2, (tries - 1) as u64)
    }
}

pub open spec fn spec_random_in_unit_disk(s: u64) -> (Vec3, u64) {
    spec_rud(s, SAMPLE_TRIES)
}

fn ruv_go(rng: &mut Rng, tries: u64) -> (r: Vec3)
    requires
        tries >= 1,
    ensures
        (r, final(rng).state) == spec_ruv(old(rng).state, tries),
    decreases tries,
{
    let x: i64 = rng.rand_sym();
    let y: i64 = rng.rand_sym();
    let z: i64 = rng.rand_sym();
    let p: Vec3 = Vec3::new(x, y, z);
    let lsq: i64 = p.length_squared();
    if 0 < lsq && lsq <= SCALE {
        p.unit_vector()
    } else if tries <= 1 {
        Vec3::new(SCALE, 0, 0)
    } else {
        ruv_go(rng, tries - 1)
    }
}

impl Vec3 {
    /// A pseudo-random direction of (approximately) unit length.
    pub fn random_unit_vector(rng: &mut Rng) -> (r: Vec3)
        ensures
            (r, final(rng).state) == spec_random_unit_vector(old(rng).state),
    {
        ruv_go(rng, SAMPLE_TRIES)
    }

    /// A pseudo-random point in the unit disk of the x-y plane.
    pub fn random_in_unit_disk(rng: &mut Rng) -> (r: Vec3)
        ensures
            (r, final(rng).state) == spec_random_in_unit_disk(old(rng).state),
    {
        rud_go(rng, SAMPLE_TRIES)
    }
}

fn rud_go(rng: &mut Rng, tries: u64) -> (r: Vec3)
    requires
        tries >= 1,
    ensures
        (r, final(rng).state) == spec_rud(old(rng).state, tries),
    decreases tries,
{
    let x: i64 = rng.rand_sym();
    let y: i64 = rng.rand_sym();
    let p: Vec3 = Vec3::new(x, y, 0);
    let lsq: i64 = p.length_squared();
    if lsq < SCALE {
        p
    } else if tries <= 1 {
        Vec3::new(0, 0, 0)
    } else {
        rud_go(rng, tries - 1)
    }
}

} // verus!
