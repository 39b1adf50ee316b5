//! Spheres, intersected by the quadratic in `|P - C|^2 = r^2`.

use vstd::prelude::*;
use crate::fx::{fxs_add, fxs_sub, fxs_mul, fxs_div, fxs_sqrt, fx_add, fx_sub, fx_mul, fx_div,
    fx_sqrt};
use crate::hittable::{HitRecord, Hittable, spec_set_face_normal};
use crate::interval::{Interval, spec_surrounds};
use crate::material::Material;
use crate::ray::{Ray, spec_ray_at};
use crate::vec3::{Vec3, Point3, spec_dot, spec_lsq, spec_unit, spec_vsub};

verus! {

#[derive(Clone, Copy, Debug, PartialEq, Eq, Structural)]
pub struct Sphere {
    pub center: Point3,
    pub radius: i64,
    pub mat: Material,
}

/// The nearest valid intersection of a ray with a sphere: solve the
/// fixed-point quadratic, try the smaller root first, then the larger; the
/// normal is the normalized offset from the center, oriented against the ray.
pub open spec fn spec_sphere_hit(s: Sphere, r: Ray, ray_t: Interval) -> Option<HitRecord> {
    let oc = spec_vsub(s.center, r.origin);
    let a = spec_lsq(r.direction);
    let h = spec_dot(r.direction, oc);
    let c = fxs_sub(spec_lsq(oc), fxs_mul(s.radius as int, s.radius as int));
    let disc = fxs_sub(fxs_mul(h, h), fxs_mul(a, c));
    if disc < 0 {
        None
    } else {
        let sqrtd = fxs_sqrt(disc);
        let root1 = fxs_div(fxs_sub(h, sqrtd), a);
        let root2 = fxs_div(fxs_add(h, sqrtd), a);
        if spec_surrounds(ray_t, root1) {
            Some(spec_sphere_rec(s, r, root1))
        } else if spec_surrounds(ray_t, root2) {
            Some(spec_sphere_rec(s, r, root2))
        } else {
            None
        }
    }
}

/// The record a sphere reports for a hit at parameter `root`.
pub open spec fn spec_sphere_rec(s: Sphere, r: Ray, root: int) -> HitRecord {
    let p = spec_ray_at(r, root);
    let outward = spec_unit(spec_vsub(p, s.center));
    spec_set_face_normal(
        HitRecord { t: root as i64, p, normal: outward, front_face: true, mat: s.mat },
        r,
    )
}

impl Sphere {
    pub fn new(center: Point3, radius: i64, mat: Material) -> (s: Sphere)
        ensures
            s == (Sphere { center, radius, mat }),
    {
        Sphere { center, radius, mat }
    }

    pub fn hit(&self, r: &Ray, ray_t: Interval) -> (res: Option<HitRecord>)
        ensures
            res == spec_sphere_hit(*self, *r, ray_t),
    {
        let oc: Vec3 = self.center.sub(r.origin);
        let a: i64 = r.direction.length_squared();
        let h: i64 = Vec3::dot(r.direction, oc);
        let c: i64 = fx_sub(oc.length_squared(), fx_mul(self.radius, self.radius));
        let discriminant: i64 = fx_sub(fx_mul(h, h), fx_mul(a, c));
        if discriminant < 0 {
            return None;
        }
        let sqrtd: i64 = fx_sqrt(discriminant);
        let mut root: i64 = fx_div(fx_sub(h, sqrtd), a);
        if !ray_t.surrounds(root) {
            root = fx_div(fx_add(h, sqrtd), a);
            if !ray_t.surrounds(root) {
                return None;
            }
        }
        let p: Point3 = r.at(root);
        let outward_normal: Vec3 = p.sub(self.center).unit_vector();
        let mut rec: HitRecord = HitRecord::new(root, p, outward_normal, self.mat);
        rec.set_face_normal(r);
        Some(rec)
    }
}

/// A sphere hit lies strictly inside the queried interval, and its point is
/// the ray evaluated at its parameter.
pub proof fn lemma_sphere_hit_in_interval(s: Sphere, r: Ray, ray_t: Interval)
    ensures
        spec_sphere_hit(s, r, ray_t) matches Some(rec) ==> spec_surrounds(ray_t, rec.t as int)
            && rec.p == spec_ray_at(r, rec.t as int),
{
}

proof fn lemma_sphere_rec_normal(s: Sphere, r: Ray, root: int)
    ensures
        spec_dot(spec_sphere_rec(s, r, root).normal, r.direction) <= 0,
{
    let p = spec_ray_at(r, root);
    crate::vec3::lemma_unit_ok(spec_vsub(p, s.center));
    crate::hittable::lemma_face_normal_against_ray(
        HitRecord {
            t: root as i64,
            p,
            normal: spec_unit(spec_vsub(p, s.center)),
            front_face: true,
            mat: s.mat,
        },
        r,
    );
}

/// A sphere's reported normal faces against the incoming ray.
pub proof fn lemma_sphere_normal_faces_ray(s: Sphere, r: Ray, ray_t: Interval)
    ensures
        spec_sphere_hit(s, r, ray_t) matches Some(rec) ==> spec_dot(rec.normal, r.direction)
            <= 0,
{
    let oc = spec_vsub(s.center, r.origin);
    let a = spec_lsq(r.direction);
    let h = spec_dot(r.direction, oc);
    let c = fxs_sub(spec_lsq(oc), fxs_mul(s.radius as int, s.radius as int));
    let disc = fxs_sub(fxs_mul(h, h), fxs_mul(a, c));
    if disc >= 0 {
        let sqrtd = fxs_sqrt(disc);
        lemma_sphere_rec_normal(s, r, fxs_div(fxs_sub(h, sqrtd), a));
        lemma_sphere_rec_normal(s, r, fxs_div(fxs_add(h, sqrtd), a));
    }
}

/// Shrinking the far end of the query interval keeps exactly the hits whose
/// parameter still lies under it: the sphere tries its smaller root first,
/// so a tighter bound never changes which root is reported, only whether.
pub proof fn lemma_sphere_hit_shrink(s: Sphere, r: Ray, t0: i64, t1: i64, t1p: i64)
    requires
        t1p <= t1,
    ensures
        spec_sphere_hit(s, r, Interval { min: t0, max: t1p }) == crate::hittable::spec_hit_restrict(
            spec_sphere_hit(s, r, Interval { min: t0, max: t1 }),
            t1p as int,
        ),
{
    let oc = spec_vsub(s.center, r.origin);
    let a = spec_lsq(r.direction);
    let h = spec_dot(r.direction, oc);
    let c = fxs_sub(spec_lsq(oc), fxs_mul(s.radius as int, s.radius as int));
    let disc = fxs_sub(fxs_mul(h, h), fxs_mul(a, c));
    crate::vec3::lemma_lsq_nonneg(r.direction);
    if disc >= 0 {
        let sqrtd = fxs_sqrt(disc);
        crate::fx::lemma_fxs_sqrt_nonneg(disc);
        crate::fx::lemma_fxs_div_monotone(fxs_sub(h, sqrtd), fxs_add(h, sqrtd), a);
    }
}

/// A sphere's reported normal is unit length, within `UNIT_TOL` on its
/// squared length, whenever the offset from the center to the hit point has
/// length at least one (under the saturation bound) — that is, for spheres
/// of radius about one or more.
pub proof fn lemma_sphere_normal_near_unit(s: Sphere, r: Ray, root: int)
    requires
        crate::fx::SCALE as int <= crate::vec3::spec_len(
            spec_vsub(spec_ray_at(r, root), s.center),
        ) < crate::fx::FMAX as int,
    ensures
        crate::fx::SCALE as int - crate::vec3::UNIT_TOL as int <= spec_lsq(
            spec_sphere_rec(s, r, root).normal,
        ),
        spec_lsq(spec_sphere_rec(s, r, root).normal) <= crate::fx::SCALE as int
            + crate::vec3::UNIT_TOL as int,
{
    let off = spec_vsub(spec_ray_at(r, root), s.center);
    crate::vec3::lemma_unit_vector_near_unit(off);
    crate::vec3::lemma_unit_ok(off);
    crate::vec3::lemma_lsq_neg(spec_unit(off));
}

impl Hittable for Sphere {
    fn hit(&self, r: &Ray, ray_t: Interval) -> (res: Option<HitRecord>) {
        let res = Sphere::hit(self, r, ray_t);
        proof {
            lemma_sphere_hit_in_interval(*self, *r, ray_t);
        }
        res
    }
}

} // verus!
