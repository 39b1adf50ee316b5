//! Hit records, face orientation, and the closed set of primitives.

use vstd::prelude::*;
use crate::interval::{Interval, spec_surrounds};
use crate::material::Material;
use crate::ray::Ray;
use crate::vec3::{Vec3, Point3, spec_dot, spec_vneg};

verus! {

/// The result of a successful intersection: distance, point, oriented unit
/// normal, which side was hit, and the surface's material.
#[derive(Clone, Copy, Debug, PartialEq, Eq, Structural)]
pub struct HitRecord {
    pub t: i64,
    pub p: Point3,
    pub normal: Vec3,
    pub front_face: bool,
    pub mat: Material,
}

/// Orientation fix-up: the normal is flipped so that it faces against the
/// incoming ray, and `front_face` records whether the raw normal already did.
pub open spec fn spec_set_face_normal(rec: HitRecord, r: Ray) -> HitRecord {
    let ff = spec_dot(r.direction, rec.normal) < 0;
    HitRecord {
        t: rec.t,
        p: rec.p,
        normal: if ff {
            rec.normal
        } else {
            spec_vneg(rec.normal)
        },
        front_face: ff,
        mat: rec.mat,
    }
}

impl HitRecord {
    pub fn new(t: i64, p: Point3, normal: Vec3, mat: Material) -> (rec: HitRecord)
        ensures
            rec == (HitRecord { t, p, normal, front_face: true, mat }),
    {
        HitRecord { p, normal, t, front_face: true, mat }
    }

    pub fn set_face_normal(&mut self, r: &Ray)
        ensures
            *final(self) == spec_set_face_normal(*old(self), *r),
    {
        self.front_face = crate::vec3::dot(r.direction, self.normal) < 0;
        if !self.front_face {
            self.normal = self.normal.neg();
        }
    }
}

/// A hit restricted to parameters under `t1p`: the value a query over a
/// shrunken interval must return.
pub open spec fn spec_hit_restrict(full: Option<HitRecord>, t1p: int) -> Option<HitRecord> {
    match full {
        Some(rec) => if (rec.t as int) < t1p {
            Some(rec)
        } else {
            None
        },
        None => None,
    }
}

/// After the orientation fix-up the normal never points along the incoming
/// ray: their dot product is at most zero.
pub proof fn lemma_face_normal_against_ray(rec: HitRecord, r: Ray)
    requires
        crate::vec3::vec_ok(rec.normal),
    ensures
        spec_dot(spec_set_face_normal(rec, r).normal, r.direction) <= 0,
{
    crate::vec3::lemma_dot_comm(r.direction, rec.normal);
    if !(spec_dot(r.direction, rec.normal) < 0) {
        crate::vec3::lemma_dot_neg_left(rec.normal, r.direction);
        crate::vec3::lemma_dot_comm(spec_vneg(rec.normal), r.direction);
    } else {
        crate::vec3::lemma_dot_comm(rec.normal, r.direction);
    }
}

/// Anything a ray can strike. The one contract every implementor shares: a
/// reported hit lies strictly inside the queried interval.
pub trait Hittable {
    fn hit(&self, r: &Ray, ray_t: Interval) -> (res: Option<HitRecord>)
        ensures
            res matches Some(rec) ==> spec_surrounds(ray_t, rec.t as int),
    ;
}

} // verus!
