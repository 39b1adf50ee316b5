//! Finite vertical cylinders: the lateral surface only. Rays through the
//! open ends are not modeled; that is an intentional scope limitation of the
//! primitive, not an oversight.

use vstd::prelude::*;
use crate::fx::{fxs_add, fxs_sub, fxs_mul, fxs_div, fxs_sqrt, fx_add, fx_sub, fx_mul, fx_div,
    fx_sqrt, SCALE};
use crate::hittable::{HitRecord, Hittable, spec_set_face_normal};
use crate::interval::{Interval, spec_surrounds};
use crate::material::Material;
use crate::ray::{Ray, spec_ray_at};
use crate::vec3::{Vec3, Point3, spec_dot};

verus! {

#[derive(Clone, Copy, Debug, PartialEq, Eq, Structural)]
pub struct Cylinder {
    pub center: Point3,
    pub radius: i64,
    pub height: i64,
    pub mat: Material,
}

/// The cylinder's vertical span.
pub open spec fn spec_cyl_y_min(cy: Cylinder) -> int {
    fxs_sub(cy.center.y as int, fxs_div(cy.height as int, 2 * SCALE as int))
}

pub open spec fn spec_cyl_y_max(cy: Cylinder) -> int {
    fxs_add(cy.center.y as int, fxs_div(cy.height as int, 2 * SCALE as int))
}

/// The record a cylinder reports for a hit at parameter `root`: the normal
/// is the radial offset divided by the radius, oriented against the ray.
pub open spec fn spec_cylinder_rec(cy: Cylinder, r: Ray, root: int) -> HitRecord {
    let p = spec_ray_at(r, root);
    let normal = Vec3 {
        x: fxs_div(fxs_sub(p.x as int, cy.center.x as int), cy.radius as int) as i64,
        y: 0i64,
        z: fxs_div(fxs_sub(p.z as int, cy.center.z as int), cy.radius as int) as i64,
    };
    spec_set_face_normal(
        HitRecord { t: root as i64, p, normal, front_face: true, mat: cy.mat },
        r,
    )
}

pub open spec fn spec_cyl_y_in(cy: Cylinder, p: Point3) -> bool {
    spec_cyl_y_min(cy) <= p.y as int && p.y as int <= spec_cyl_y_max(cy)
}

/// Intersection with the lateral surface: a quadratic in the two non-axis
/// coordinates; among the two roots, the first that lies in the interval and
/// within the height span wins; if the nearer root fails the height test the
/// farther one is tried.
pub open spec fn spec_cylinder_hit(cy: Cylinder, r: Ray, ray_t: Interval) -> Option<HitRecord> {
    let ocx = fxs_sub(cy.center.x as int, r.origin.x as int);
    let ocz = fxs_sub(cy.center.z as int, r.origin.z as int);
    let a = fxs_add(
        fxs_mul(r.direction.x as int, r.direction.x as int),
        fxs_mul(r.direction.z as int, r.direction.z as int),
    );
    if a == 0 {
        None
    } else {
        let h = fxs_add(fxs_mul(r.direction.x as int, ocx), fxs_mul(r.direction.z as int, ocz));
        let c = fxs_sub(
            fxs_add(fxs_mul(ocx, ocx), fxs_mul(ocz, ocz)),
            fxs_mul(cy.radius as int, cy.radius as int),
        );
        let disc = fxs_sub(fxs_mul(h, h), fxs_mul(a, c));
        if disc < 0 {
            None
        } else {
            let sqrtd = fxs_sqrt(disc);
            let root1 = fxs_div(fxs_sub(h, sqrtd), a);
            let root2 = fxs_div(fxs_add(h, sqrtd), a);
            if !spec_surrounds(ray_t, root1) && !spec_surrounds(ray_t, root2) {
                None
            } else {
                let root = if spec_surrounds(ray_t, root1) {
                    root1
                } else {
                    root2
                };
                if spec_cyl_y_in(cy, spec_ray_at(r, root)) {
                    Some(spec_cylinder_rec(cy, r, root))
                } else if !spec_surrounds(ray_t, root2) {
                    None
                } else if spec_cyl_y_in(cy, spec_ray_at(r, root2)) {
                    Some(spec_cylinder_rec(cy, r, root2))
                } else {
                    None
                }
            }
        }
    }
}

impl Cylinder {
    pub fn new(center: Point3, radius: i64, height: i64, mat: Material) -> (cy: Cylinder)
        ensures
            cy == (Cylinder { center, radius, height, mat }),
    {
        Cylinder { center, radius, height, mat }
    }

    pub fn hit(&self, r: &Ray, ray_t: Interval) -> (res: Option<HitRecord>)
        ensures
            res == spec_cylinder_hit(*self, *r, ray_t),
    {
        let half: i64 = fx_div(self.height, 2 * SCALE);
        let y_min: i64 = fx_sub(self.center.y, half);
        let y_max: i64 = fx_add(self.center.y, half);
        let ocx: i64 = fx_sub(self.center.x, r.origin.x);
        let ocz: i64 = fx_sub(self.center.z, r.origin.z);
        let a: i64 = fx_add(
            fx_mul(r.direction.x, r.direction.x),
            fx_mul(r.direction.z, r.direction.z),
        );
        if a == 0 {
            return None;
        }
        let h: i64 = fx_add(fx_mul(r.direction.x, ocx), fx_mul(r.direction.z, ocz));
        let c: i64 = fx_sub(
            fx_add(fx_mul(ocx, ocx), fx_mul(ocz, ocz)),
            fx_mul(self.radius, self.radius),
        );
        let discriminant: i64 = fx_sub(fx_mul(h, h), fx_mul(a, c));
        if discriminant < 0 {
            return None;
        }
        let sqrtd: i64 = fx_sqrt(discriminant);
        let root1: i64 = fx_div(fx_sub(h, sqrtd), a);
        let root2: i64 = fx_div(fx_add(h, sqrtd), a);
        let mut root: i64 = root1;
        if !ray_t.surrounds(root) {
            root = root2;
            if !ray_t.surrounds(root) {
                return None;
            }
        }
        let p: Point3 = r.at(root);
        if p.y < y_min || p.y > y_max {
            if !ray_t.surrounds(root2) {
                return None;
            }
            let p2: Point3 = r.at(root2);
            if p2.y < y_min || p2.y > y_max {
                return None;
            }
            Some(self.make_rec(r, root2, p2))
        } else {
            Some(self.make_rec(r, root, p))
        }
    }

    fn make_rec(&self, r: &Ray, root: i64, p: Point3) -> (rec: HitRecord)
        requires
            p == spec_ray_at(*r, root as int),
        ensures
            rec == spec_cylinder_rec(*self, *r, root as int),
    {
        let normal: Vec3 = Vec3::new(
            fx_div(fx_sub(p.x, self.center.x), self.radius),
            0,
            fx_div(fx_sub(p.z, self.center.z), self.radius),
        );
        let mut rec: HitRecord = HitRecord::new(root, p, normal, self.mat);
        rec.set_face_normal(r);
        rec
    }
}

/// A cylinder hit lies strictly inside the queried interval, and its point
/// is the ray evaluated at its parameter.
pub proof fn lemma_cylinder_hit_in_interval(cy: Cylinder, r: Ray, ray_t: Interval)
    ensures
        spec_cylinder_hit(cy, r, ray_t) matches Some(rec) ==> spec_surrounds(ray_t, rec.t as int)
            && rec.p == spec_ray_at(r, rec.t as int),
{
}

proof fn lemma_cylinder_rec_normal(cy: Cylinder, r: Ray, root: int)
    ensures
        spec_dot(spec_cylinder_rec(cy, r, root).normal, r.direction) <= 0,
{
    let p = spec_ray_at(r, root);
    let normal = Vec3 {
        x: fxs_div(fxs_sub(p.x as int, cy.center.x as int), cy.radius as int) as i64,
        y: 0i64,
        z: fxs_div(fxs_sub(p.z as int, cy.center.z as int), cy.radius as int) as i64,
    };
    crate::hittable::lemma_face_normal_against_ray(
        HitRecord { t: root as i64, p, normal, front_face: true, mat: cy.mat },
        r,
    );
}

/// A cylinder's reported normal faces against the incoming ray.
pub proof fn lemma_cylinder_normal_faces_ray(cy: Cylinder, r: Ray, ray_t: Interval)
    ensures
        spec_cylinder_hit(cy, r, ray_t) matches Some(rec) ==> spec_dot(rec.normal, r.direction)
            <= 0,
{
    let ocx = fxs_sub(cy.center.x as int, r.origin.x as int);
    let ocz = fxs_sub(cy.center.z as int, r.origin.z as int);
    let a = fxs_add(
        fxs_mul(r.direction.x as int, r.direction.x as int),
        fxs_mul(r.direction.z as int, r.direction.z as int),
    );
    if a != 0 {
        let h = fxs_add(fxs_mul(r.direction.x as int, ocx), fxs_mul(r.direction.z as int, ocz));
        let c = fxs_sub(
            fxs_add(fxs_mul(ocx, ocx), fxs_mul(ocz, ocz)),
            fxs_mul(cy.radius as int, cy.radius as int),
        );
        let disc = fxs_sub(fxs_mul(h, h), fxs_mul(a, c));
        if disc >= 0 {
            let sqrtd = fxs_sqrt(disc);
            lemma_cylinder_rec_normal(cy, r, fxs_div(fxs_sub(h, sqrtd), a));
            lemma_cylinder_rec_normal(cy, r, fxs_div(fxs_add(h, sqrtd), a));
        }
    }
}

/// Shrinking the far end of the query interval keeps exactly the hits whose
/// parameter still lies under it: the cylinder tries its smaller root first
/// (with its height test), so a tighter bound never changes which root is
/// reported, only whether.
pub proof fn lemma_cylinder_hit_shrink(cy: Cylinder, r: Ray, t0: i64, t1: i64, t1p: i64)
    requires
        t1p <= t1,
    ensures
        spec_cylinder_hit(cy, r, Interval { min: t0, max: t1p })
            == crate::hittable::spec_hit_restrict(
            spec_cylinder_hit(cy, r, Interval { min: t0, max: t1 }),
            t1p as int,
        ),
{
    let ocx = fxs_sub(cy.center.x as int, r.origin.x as int);
    let ocz = fxs_sub(cy.center.z as int, r.origin.z as int);
    let a = fxs_add(
        fxs_mul(r.direction.x as int, r.direction.x as int),
        fxs_mul(r.direction.z as int, r.direction.z as int),
    );
    crate::fx::lemma_fxs_mul_square_nonneg(r.direction.x as int);
    crate::fx::lemma_fxs_mul_square_nonneg(r.direction.z as int);
    if a != 0 {
        let h = fxs_add(fxs_mul(r.direction.x as int, ocx), fxs_mul(r.direction.z as int, ocz));
        let c = fxs_sub(
            fxs_add(fxs_mul(ocx, ocx), fxs_mul(ocz, ocz)),
            fxs_mul(cy.radius as int, cy.radius as int),
        );
        let disc = fxs_sub(fxs_mul(h, h), fxs_mul(a, c));
        if disc >= 0 {
            let sqrtd = fxs_sqrt(disc);
            crate::fx::lemma_fxs_sqrt_nonneg(disc);
            crate::fx::lemma_fxs_div_monotone(fxs_sub(h, sqrtd), fxs_add(h, sqrtd), a);
        }
    }
}

impl Hittable for Cylinder {
    fn hit(&self, r: &Ray, ray_t: Interval) -> (res: Option<HitRecord>) {
        let res = Cylinder::hit(self, r, ray_t);
        proof {
            lemma_cylinder_hit_in_interval(*self, *r, ray_t);
        }
        res
    }
}

} // verus!
