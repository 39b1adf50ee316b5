//! The scene aggregate: an unordered collection of primitives answering
//! nearest-hit queries by linear scan.

use vstd::prelude::*;
use crate::cube::{Cube, spec_cube_hit, lemma_cube_hit_in_interval};
use crate::cylinder::{Cylinder, spec_cylinder_hit, lemma_cylinder_hit_in_interval};
use crate::hittable::{HitRecord, Hittable};
use crate::interval::{Interval, spec_surrounds};
use crate::plane::{Plane, spec_plane_hit, lemma_plane_hit_in_interval};
use crate::ray::{Ray, spec_ray_at};
use crate::sphere::{Sphere, spec_sphere_hit, lemma_sphere_hit_in_interval};

verus! {

/// The closed set of primitives a scene can hold.
#[derive(Clone, Copy, Debug, PartialEq, Eq, Structural)]
pub enum Primitive {
    Sphere(Sphere),
    Plane(Plane),
    Cube(Cube),
    Cylinder(Cylinder),
}

pub open spec fn spec_primitive_hit(p: Primitive, r: Ray, ray_t: Interval) -> Option<HitRecord> {
    match p {
        Primitive::Sphere(s) => spec_sphere_hit(s, r, ray_t),
        Primitive::Plane(pl) => spec_plane_hit(pl, r, ray_t),
        Primitive::Cube(c) => spec_cube_hit(c, r, ray_t),
        Primitive::Cylinder(cy) => spec_cylinder_hit(cy, r, ray_t),
    }
}

impl Primitive {
    pub fn hit(&self, r: &Ray, ray_t: Interval) -> (res: Option<HitRecord>)
        ensures
            res == spec_primitive_hit(*self, *r, ray_t),
    {
        match self {
            Primitive::Sphere(s) => s.hit(r, ray_t),
            Primitive::Plane(pl) => pl.hit(r, ray_t),
            Primitive::Cube(c) => c.hit(r, ray_t),
            Primitive::Cylinder(cy) => cy.hit(r, ray_t),
        }
    }
}

/// A hit of any primitive lies strictly inside the queried interval, and its
/// point is the ray evaluated at its parameter.
pub proof fn lemma_primitive_hit_in_interval(p: Primitive, r: Ray, ray_t: Interval)
    ensures
        spec_primitive_hit(p, r, ray_t) matches Some(rec) ==> spec_surrounds(ray_t, rec.t as int)
            && rec.p == spec_ray_at(r, rec.t as int),
{
    match p {
        Primitive::Sphere(s) => lemma_sphere_hit_in_interval(s, r, ray_t),
        Primitive::Plane(pl) => lemma_plane_hit_in_interval(pl, r, ray_t),
        Primitive::Cube(c) => lemma_cube_hit_in_interval(c, r, ray_t),
        Primitive::Cylinder(cy) => lemma_cylinder_hit_in_interval(cy, r, ray_t),
    }
}

impl Hittable for Primitive {
    fn hit(&self, r: &Ray, ray_t: Interval) -> (res: Option<HitRecord>) {
        let res = Primitive::hit(self, r, ray_t);
        proof {
            lemma_primitive_hit_in_interval(*self, *r, ray_t);
        }
        res
    }
}

pub struct HittableList {
    objects: Vec<Primitive>,
}

impl View for HittableList {
    type V = Seq<Primitive>;

    closed spec fn view(&self) -> Seq<Primitive> {
        self.objects@
    }
}

/// The scan's fold: the hit of the first `objs.len()` primitives, each asked
/// within the interval shrunk to the closest hit seen so far.
pub open spec fn spec_list_hit(objs: Seq<Primitive>, r: Ray, ray_t: Interval) -> Option<HitRecord>
    decreases objs.len(),
{
    if objs.len() == 0 {
        None
    } else {
        let prev = spec_list_hit(objs.drop_last(), r, ray_t);
        let closest = match prev {
            Some(rec) => rec.t,
            None => ray_t.max,
        };
        match spec_primitive_hit(objs.last(), r, Interval { min: ray_t.min, max: closest }) {
            Some(rec) => Some(rec),
            None => prev,
        }
    }
}

impl HittableList {
    pub fn new() -> (l: HittableList)
        ensures
            l@ == Seq::<Primitive>::empty(),
    {
        HittableList { objects: Vec::new() }
    }

    pub fn add(&mut self, object: Primitive)
        ensures
            final(self)@ == old(self)@.push(object),
    {
        self.objects.push(object);
    }

    #[verifier::rlimit(60)]
    pub fn hit(&self, r: &Ray, ray_t: Interval) -> (res: Option<HitRecord>)
        ensures
            res == spec_list_hit(self@, *r, ray_t),
    {
        let mut rec: Option<HitRecord> = None;
        let mut closest_so_far: i64 = ray_t.max;
        let mut i: usize = 0;
        while i < self.objects.len()
            invariant
                i <= self.objects.len(),
                rec == spec_list_hit(self.objects@.take(i as int), *r, ray_t),
                closest_so_far == match rec {
                    Some(hr) => hr.t,
                    None => ray_t.max,
                },
            decreases self.objects.len() - i,
        {
            let object: Primitive = self.objects[i];
            if let Some(hitrec) = object.hit(r, Interval::new(ray_t.min, closest_so_far)) {
                closest_so_far = hitrec.t;
                rec = Some(hitrec);
            }
            i = i + 1;
            proof {
                assert(self.objects@.take(i as int).drop_last() =~= self.objects@.take(
                    i as int - 1,
                ));
                assert(self.objects@.take(i as int).last() == self.objects@[i as int - 1]);
            }
        }
        proof {
            assert(self.objects@.take(self.objects@.len() as int) =~= self.objects@);
        }
        rec
    }
}

/// Shrinking the far end of the query interval keeps exactly the hits whose
/// parameter still lies under it, for every primitive.
pub proof fn lemma_primitive_hit_shrink(p: Primitive, r: Ray, t0: i64, t1: i64, t1p: i64)
    requires
        t1p <= t1,
    ensures
        spec_primitive_hit(p, r, Interval { min: t0, max: t1p })
            == crate::hittable::spec_hit_restrict(
            spec_primitive_hit(p, r, Interval { min: t0, max: t1 }),
            t1p as int,
        ),
{
    match p {
        Primitive::Sphere(s) => crate::sphere::lemma_sphere_hit_shrink(s, r, t0, t1, t1p),
        Primitive::Plane(pl) => crate::plane::lemma_plane_hit_shrink(pl, r, t0, t1, t1p),
        Primitive::Cube(c) => crate::cube::lemma_cube_hit_shrink(c, r, t0, t1, t1p),
        Primitive::Cylinder(cy) => crate::cylinder::lemma_cylinder_hit_shrink(cy, r, t0, t1, t1p),
    }
}

/// The scene aggregate returns the globally nearest hit: the scan misses
/// exactly when every primitive misses the full interval on its own, and a
/// reported hit is one of the primitives' own full-interval hits, with a
/// parameter no larger than any of them.
#[verifier::rlimit(100)]
pub proof fn lemma_list_hit_nearest(objs: Seq<Primitive>, r: Ray, ray_t: Interval)
    ensures
        (spec_list_hit(objs, r, ray_t) is None) <==> (forall|i: int|
            0 <= i < objs.len() ==> spec_primitive_hit(objs[i], r, ray_t) is None),
        spec_list_hit(objs, r, ray_t) matches Some(rec) ==> exists|i: int|
            0 <= i < objs.len() && spec_primitive_hit(objs[i], r, ray_t) == Some(rec),
        spec_list_hit(objs, r, ray_t) matches Some(rec) ==> forall|i: int|
            0 <= i < objs.len() ==> (#[trigger] spec_primitive_hit(objs[i], r, ray_t) matches Some(
                ri,
            ) ==> rec.t <= ri.t),
    decreases objs.len(),
{
    if objs.len() > 0 {
        let pre = objs.drop_last();
        lemma_list_hit_nearest(pre, r, ray_t);
        lemma_list_hit_in_interval(pre, r, ray_t);
        let prev = spec_list_hit(pre, r, ray_t);
        let closest = match prev {
            Some(rec) => rec.t,
            None => ray_t.max,
        };
        lemma_primitive_hit_shrink(objs.last(), r, ray_t.min, ray_t.max, closest);
        lemma_primitive_hit_in_interval(objs.last(), r, ray_t);
        assert(forall|i: int| 0 <= i < pre.len() ==> pre[i] == objs[i]);
        assert(objs.last() == objs[objs.len() - 1]);
        let shrunk = spec_primitive_hit(objs.last(), r, Interval { min: ray_t.min, max: closest });
        match shrunk {
            Some(rec) => {
                assert(spec_primitive_hit(objs[objs.len() - 1], r, ray_t) == Some(rec));
            },
            None => {
                match prev {
                    Some(pr) => {
                        let wi = choose|i: int|
                            0 <= i < pre.len() && spec_primitive_hit(pre[i], r, ray_t) == Some(pr);
                        assert(spec_primitive_hit(objs[wi], r, ray_t) == Some(pr));
                    },
                    None => {},
                }
            },
        }
    }
}

/// A scene hit lies strictly inside the queried interval, and its point is
/// the ray evaluated at its parameter.
pub proof fn lemma_list_hit_in_interval(objs: Seq<Primitive>, r: Ray, ray_t: Interval)
    ensures
        spec_list_hit(objs, r, ray_t) matches Some(rec) ==> spec_surrounds(ray_t, rec.t as int)
            && rec.p == spec_ray_at(r, rec.t as int),
    decreases objs.len(),
{
    if objs.len() > 0 {
        lemma_list_hit_in_interval(objs.drop_last(), r, ray_t);
        let prev = spec_list_hit(objs.drop_last(), r, ray_t);
        let closest = match prev {
            Some(rec) => rec.t,
            None => ray_t.max,
        };
        lemma_primitive_hit_in_interval(
            objs.last(),
            r,
            Interval { min: ray_t.min, max: closest },
        );
    }
}

impl Hittable for HittableList {
    fn hit(&self, r: &Ray, ray_t: Interval) -> (res: Option<HitRecord>) {
        let res = HittableList::hit(self, r, ray_t);
        proof {
            lemma_list_hit_in_interval(self@, *r, ray_t);
        }
        res
    }
}

} // verus!
