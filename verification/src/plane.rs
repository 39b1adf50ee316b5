//! Infinite planes: a point, a unit normal, a single intersection root.

use vstd::prelude::*;
use crate::fx::{fxs_div, fxs_mul, iabs_s, lemma_tdiv_rem, tdiv_s, SCALE};
use crate::hittable::{HitRecord, Hittable, spec_set_face_normal};
use crate::interval::{Interval, spec_surrounds};
use crate::material::Material;
use crate::ray::{Ray, spec_ray_at};
use crate::vec3::{Vec3, Point3, spec_dot, spec_unit, spec_vsub};

verus! {

#[derive(Clone, Copy, Debug, PartialEq, Eq, Structural)]
pub struct Plane {
    pub point: Point3,
    pub normal: Vec3,
    pub mat: Material,
}

/// The single intersection of a ray with a plane; a denominator of zero
/// means the ray runs parallel (the grid holds no smaller magnitude), so
/// there is no hit.
pub open spec fn spec_plane_hit(pl: Plane, r: Ray, ray_t: Interval) -> Option<HitRecord> {
    let denom = spec_dot(pl.normal, r.direction);
    if denom == 0 {
        None
    } else {
        let oc = spec_vsub(pl.point, r.origin);
        let t = fxs_div(spec_dot(oc, pl.normal), denom);
        if !spec_surrounds(ray_t, t) {
            None
        } else {
            Some(
                spec_set_face_normal(
                    HitRecord {
                        t: t as i64,
                        p: spec_ray_at(r, t),
                        normal: pl.normal,
                        front_face: true,
                        mat: pl.mat,
                    },
                    r,
                ),
            )
        }
    }
}

impl Plane {
    /// The stored normal is normalized, whatever was passed in.
    pub fn new(point: Point3, normal: Vec3, mat: Material) -> (pl: Plane)
        ensures
            pl == (Plane { point, normal: spec_unit(normal), mat }),
    {
        Plane { point, normal: normal.unit_vector(), mat }
    }

    pub fn hit(&self, r: &Ray, ray_t: Interval) -> (res: Option<HitRecord>)
        ensures
            res == spec_plane_hit(*self, *r, ray_t),
    {
        let denom: i64 = Vec3::dot(self.normal, r.direction);
        if denom == 0 {
            return None;
        }
        let oc: Vec3 = self.point.sub(r.origin);
        let t: i64 = crate::fx::fx_div(Vec3::dot(oc, self.normal), denom);
        if !ray_t.surrounds(t) {
            return None;
        }
        let p: Point3 = r.at(t);
        let mut rec: HitRecord = HitRecord::new(t, p, self.normal, self.mat);
        rec.set_face_normal(r);
        Some(rec)
    }
}

/// A plane hit lies strictly inside the queried interval, and its point is
/// the ray evaluated at its parameter.
pub proof fn lemma_plane_hit_in_interval(pl: Plane, r: Ray, ray_t: Interval)
    ensures
        spec_plane_hit(pl, r, ray_t) matches Some(rec) ==> spec_surrounds(ray_t, rec.t as int)
            && rec.p == spec_ray_at(r, rec.t as int),
{
}

/// A plane's reported normal faces against the incoming ray. The stored
/// normal must be in range, which `Plane::new` guarantees by normalizing.
pub proof fn lemma_plane_normal_faces_ray(pl: Plane, r: Ray, ray_t: Interval)
    requires
        crate::vec3::vec_ok(pl.normal),
    ensures
        spec_plane_hit(pl, r, ray_t) matches Some(rec) ==> spec_dot(rec.normal, r.direction) <= 0,
{
    let denom = spec_dot(pl.normal, r.direction);
    if denom != 0 {
        let oc = spec_vsub(pl.point, r.origin);
        let t = fxs_div(spec_dot(oc, pl.normal), denom);
        crate::hittable::lemma_face_normal_against_ray(
            HitRecord {
                t: t as i64,
                p: spec_ray_at(r, t),
                normal: pl.normal,
                front_face: true,
                mat: pl.mat,
            },
            r,
        );
    }
}

/// Coordinate bound (400 units) under which the surface-residual analysis
/// is free of saturation.
pub const SURFACE_COMP_MAX: i64 = 400_000_000;

/// Normal-component bound (1.1) for the surface-residual analysis; the
/// normalized normals `Plane::new` stores are well within it.
pub const SURFACE_NORMAL_MAX: i64 = 1_100_000;

/// One coordinate of the residual analysis: the products the plane equation
/// needs are unsaturated, and the residual term differs from the ideal
/// `t * (n . d) / S - (oc . n)` contribution by less than one truncation per
/// product.
proof fn lemma_plane_residual_component(o: int, e: int, d: int, n: int, t: int)
    requires
        iabs_s(o) <= SURFACE_COMP_MAX as int,
        iabs_s(e) <= SURFACE_COMP_MAX as int,
        iabs_s(d) <= SURFACE_COMP_MAX as int,
        iabs_s(n) <= SURFACE_NORMAL_MAX as int,
        0 <= t <= 1_000_000_000,
    ensures
        iabs_s(fxs_mul(t, d)) <= 400_000_000_001,
        iabs_s(fxs_mul(e - o, n)) <= 880_000_001,
        iabs_s(fxs_mul(n, d)) <= 440_000_001,
        iabs_s(fxs_mul((o + fxs_mul(t, d)) - e, n)) <= 440_900_000_002,
        iabs_s(
            (SCALE as int) * (SCALE as int) * fxs_mul((o + fxs_mul(t, d)) - e, n) - (SCALE as int)
                * t * fxs_mul(n, d) + (SCALE as int) * (SCALE as int) * fxs_mul(e - o, n),
        ) < (SCALE as int) * t + (SCALE as int) * (SURFACE_NORMAL_MAX as int) + 2 * (SCALE as int)
            * (SCALE as int),
{
    let s = SCALE as int;
    let nb = SURFACE_NORMAL_MAX as int;
    let oc = e - o;

    // the numerator product oc * n
    assert(iabs_s(oc * n) <= 880_000_000_000_000) by (nonlinear_arith)
        requires
            -800_000_000 <= oc <= 800_000_000,
            -nb <= n <= nb,
            nb == 1_100_000,
    ;
    lemma_tdiv_rem(oc * n, s);
    let a = tdiv_s(oc * n, s);
    assert(iabs_s(a) <= 880_000_001);
    assert(fxs_mul(oc, n) == a);

    // the denominator product n * d
    assert(iabs_s(n * d) <= 440_000_000_000_000) by (nonlinear_arith)
        requires
            -400_000_000 <= d <= 400_000_000,
            -nb <= n <= nb,
            nb == 1_100_000,
    ;
    lemma_tdiv_rem(n * d, s);
    let b = tdiv_s(n * d, s);
    assert(iabs_s(b) <= 440_000_001);
    assert(fxs_mul(n, d) == b);

    // the ray-advance product t * d
    assert(iabs_s(t * d) <= 400_000_000_000_000_000) by (nonlinear_arith)
        requires
            -400_000_000 <= d <= 400_000_000,
            0 <= t <= 1_000_000_000,
    ;
    lemma_tdiv_rem(t * d, s);
    let qd = tdiv_s(t * d, s);
    assert(iabs_s(qd) <= 400_000_000_001);
    assert(fxs_mul(t, d) == qd);

    // the residual product w * n
    let w = (o + qd) - e;
    assert(iabs_s(w * n) <= 440_900_000_001_000_000int) by (nonlinear_arith)
        requires
            -400_800_000_001 <= w <= 400_800_000_001,
            -nb <= n <= nb,
            nb == 1_100_000,
    ;
    lemma_tdiv_rem(w * n, s);
    let m = tdiv_s(w * n, s);
    assert(iabs_s(m) <= 440_900_000_002);
    assert(fxs_mul(w, n) == m);

    // the residual identity: expand w = qd - oc and push the truncation
    // remainders through the products, one product at a time
    let ra = oc * n - s * a;
    let rb = n * d - s * b;
    let rq = t * d - s * qd;
    let rm = w * n - s * m;
    assert(w * n == qd * n - oc * n) by (nonlinear_arith)
        requires
            w == qd - oc,
    ;
    assert(s * (qd * n) == (s * qd) * n) by (nonlinear_arith);
    assert((s * qd) * n == (t * d) * n - rq * n) by (nonlinear_arith)
        requires
            s * qd == t * d - rq,
    ;
    assert((t * d) * n == t * (n * d)) by (nonlinear_arith);
    assert(t * (n * d) == s * t * b + t * rb) by (nonlinear_arith)
        requires
            n * d == s * b + rb,
    ;
    assert(s * (qd * n) == s * t * b + t * rb - rq * n);
    assert(s * (oc * n) == s * s * a + s * ra) by (nonlinear_arith)
        requires
            ra == oc * n - s * a,
    ;
    assert(s * s * m == s * (w * n) - s * rm) by (nonlinear_arith)
        requires
            rm == w * n - s * m,
    ;
    assert(s * (w * n) == s * (qd * n) - s * (oc * n)) by (nonlinear_arith)
        requires
            w * n == qd * n - oc * n,
    ;
    assert(s * s * m - s * t * b + s * s * a == t * rb - rq * n - s * ra - s * rm);
    assert(iabs_s(t * rb) <= t * (s - 1)) by (nonlinear_arith)
        requires
            0 <= t,
            iabs_s(rb) <= s - 1,
            iabs_s(rb) == if rb >= 0 {
                rb
            } else {
                -rb
            },
    ;
    assert(iabs_s(rq * n) <= (s - 1) * nb) by (nonlinear_arith)
        requires
            iabs_s(rq) <= s - 1,
            iabs_s(n) <= nb,
            0 < nb,
            iabs_s(rq) == if rq >= 0 {
                rq
            } else {
                -rq
            },
            iabs_s(n) == if n >= 0 {
                n
            } else {
                -n
            },
    ;
}
/// A reported plane hit lies on the plane within a numerical tolerance: the
/// residual of the plane equation at the hit point, in fixed-point units, is
/// under `(|denom| + 3 t) / S + 10` — about a hundred-thousandth, growing
/// with the hit distance. Holds for queries within 1000 units of distance
/// over scenes within 400 units.
#[verifier::rlimit(100)]
pub proof fn lemma_plane_hit_on_surface(pl: Plane, r: Ray, ray_t: Interval)
    requires
        iabs_s(pl.normal.x as int) <= SURFACE_NORMAL_MAX as int,
        iabs_s(pl.normal.y as int) <= SURFACE_NORMAL_MAX as int,
        iabs_s(pl.normal.z as int) <= SURFACE_NORMAL_MAX as int,
        iabs_s(pl.point.x as int) <= SURFACE_COMP_MAX as int,
        iabs_s(pl.point.y as int) <= SURFACE_COMP_MAX as int,
        iabs_s(pl.point.z as int) <= SURFACE_COMP_MAX as int,
        iabs_s(r.origin.x as int) <= SURFACE_COMP_MAX as int,
        iabs_s(r.origin.y as int) <= SURFACE_COMP_MAX as int,
        iabs_s(r.origin.z as int) <= SURFACE_COMP_MAX as int,
        iabs_s(r.direction.x as int) <= SURFACE_COMP_MAX as int,
        iabs_s(r.direction.y as int) <= SURFACE_COMP_MAX as int,
        iabs_s(r.direction.z as int) <= SURFACE_COMP_MAX as int,
        0 <= ray_t.min,
        ray_t.max <= 1_000_000_000,
    ensures
        spec_plane_hit(pl, r, ray_t) matches Some(rec) ==> iabs_s(
            spec_dot(spec_vsub(rec.p, pl.point), pl.normal),
        ) * (SCALE as int) < iabs_s(spec_dot(pl.normal, r.direction)) + 3 * (rec.t as int) + 10
            * (SCALE as int),
{
    let s = SCALE as int;
    let n1 = pl.normal.x as int;
    let n2 = pl.normal.y as int;
    let n3 = pl.normal.z as int;
    let d1 = r.direction.x as int;
    let d2 = r.direction.y as int;
    let d3 = r.direction.z as int;
    let o1 = r.origin.x as int;
    let o2 = r.origin.y as int;
    let o3 = r.origin.z as int;
    let e1 = pl.point.x as int;
    let e2 = pl.point.y as int;
    let e3 = pl.point.z as int;
    let denom = spec_dot(pl.normal, r.direction);
    if denom != 0 {
        let oc = spec_vsub(pl.point, r.origin);
        let num = spec_dot(oc, pl.normal);
        let t = fxs_div(num, denom);
        if spec_surrounds(ray_t, t) {
            // inside the interval the saturation clamp cannot have fired,
            // so the hit parameter is the exact truncated quotient
            assert(0 <= t <= 1_000_000_000);
            assert(t == tdiv_s(num * s, denom));
            lemma_plane_residual_component(o1, e1, d1, n1, t);
            lemma_plane_residual_component(o2, e2, d2, n2, t);
            lemma_plane_residual_component(o3, e3, d3, n3, t);
            let a1 = fxs_mul(e1 - o1, n1);
            let a2 = fxs_mul(e2 - o2, n2);
            let a3 = fxs_mul(e3 - o3, n3);
            let b1 = fxs_mul(n1, d1);
            let b2 = fxs_mul(n2, d2);
            let b3 = fxs_mul(n3, d3);
            let m1 = fxs_mul((o1 + fxs_mul(t, d1)) - e1, n1);
            let m2 = fxs_mul((o2 + fxs_mul(t, d2)) - e2, n2);
            let m3 = fxs_mul((o3 + fxs_mul(t, d3)) - e3, n3);
            assert(num == a1 + a2 + a3);
            assert(denom == b1 + b2 + b3);
            let r0 = m1 + m2 + m3;
            // the truncated quotient's remainder against the denominator
            lemma_tdiv_rem(num * s, denom);
            assert(s * (denom * t) == s * t * b1 + s * t * b2 + s * t * b3) by (nonlinear_arith)
                requires
                    denom == b1 + b2 + b3,
            ;
            assert(iabs_s(s * (num * s - denom * t)) <= s * iabs_s(denom)) by (nonlinear_arith)
                requires
                    iabs_s(num * s - denom * t) < iabs_s(denom),
                    iabs_s(denom) >= 1,
                    s == 1_000_000,
            ;
            assert(s * (num * s) == s * s * num) by (nonlinear_arith);
            assert(iabs_s(s * s * r0) < s * iabs_s(denom) + 3 * (s * t) + 3 * (s * (
            SURFACE_NORMAL_MAX as int)) + 6 * (s * s));
            assert(iabs_s(r0) <= 5_000);
            // the clamped sums in the dot product cannot have saturated
            let rec_p = spec_ray_at(r, t);
            let resid = spec_dot(spec_vsub(rec_p, pl.point), pl.normal);
            assert(resid == r0);
            assert(iabs_s(resid) * s < iabs_s(denom) + 3 * t + 10 * s);
        }
    }
}

pub proof fn lemma_plane_hit_shrink(pl: Plane, r: Ray, t0: i64, t1: i64, t1p: i64)
    requires
        t1p <= t1,
    ensures
        spec_plane_hit(pl, r, Interval { min: t0, max: t1p }) == crate::hittable::spec_hit_restrict(
            spec_plane_hit(pl, r, Interval { min: t0, max: t1 }),
            t1p as int,
        ),
{
}

impl Hittable for Plane {
    fn hit(&self, r: &Ray, ray_t: Interval) -> (res: Option<HitRecord>) {
        let res = Plane::hit(self, r, ray_t);
        proof {
            lemma_plane_hit_in_interval(*self, *r, ray_t);
        }
        res
    }
}

} // verus!
