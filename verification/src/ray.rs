//! Rays: an origin, a direction, and parametric evaluation along them.

use vstd::prelude::*;
use crate::vec3::{Vec3, Point3, spec_vadd, spec_vscale};

verus! {

#[derive(Clone, Copy, Debug, PartialEq, Eq, Structural)]
pub struct Ray {
    pub origin: Point3,
    pub direction: Vec3,
}

/// The point `origin + t * direction` on the ray.
pub open spec fn spec_ray_at(r: Ray, t: int) -> Point3 {
    spec_vadd(r.origin, spec_vscale(t, r.direction))
}

impl Ray {
    pub fn new(origin: Point3, direction: Vec3) -> (r: Ray)
        ensures
            r == (Ray { origin, direction }),
    {
        Ray { origin, direction }
    }

    pub fn at(&self, t: i64) -> (p: Point3)
        ensures
            p == spec_ray_at(*self, t as int),
    {
        self.origin.add(self.direction.scale(t))
    }
}

} // verus!
