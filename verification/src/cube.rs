//! Axis-aligned boxes, intersected by the slab method.

use vstd::prelude::*;
use crate::fx::{fxs_abs, fxs_add, fxs_sub, fxs_div, fxs_mul, fxs_min, fxs_max, fx_abs, fx_add,
    fx_sub, fx_div, fx_min, fx_max, iabs_s, lemma_tdiv_rem, tdiv_s, SCALE};
use crate::hittable::{HitRecord, Hittable, spec_set_face_normal};
use crate::interval::{Interval, spec_surrounds};
use crate::material::Material;
use crate::ray::{Ray, spec_ray_at};
use crate::vec3::{Vec3, Point3};

verus! {

/// Two hit-point-to-face distances within this tolerance (one grid unit)
/// count as equal when the struck face is identified.
pub const FACE_EPS: i64 = 1;

#[derive(Clone, Copy, Debug, PartialEq, Eq, Structural)]
pub struct Cube {
    pub min: Point3,
    pub max: Point3,
    pub mat: Material,
}

/// One slab of the method: shrink `[t_min, t_max]` by the pair of parallel
/// planes at `lo_b` and `hi_b` along an axis with origin `o` and direction
/// `d`; `None` when the range collapses. A zero direction component
/// constrains nothing when the origin lies within the slab (bounds included)
/// and misses outright otherwise.
pub open spec fn spec_slab(o: int, d: int, lo_b: int, hi_b: int, t_min: int, t_max: int) -> Option<
    (int, int),
> {
    if d == 0 {
        if o < lo_b || o > hi_b {
            None
        } else if t_max <= t_min {
            None
        } else {
            Some((t_min, t_max))
        }
    } else {
        let ta = fxs_div(fxs_sub(lo_b, o), d);
        let tb = fxs_div(fxs_sub(hi_b, o), d);
        let t0 = if d < 0 {
            tb
        } else {
            ta
        };
        let t1 = if d < 0 {
            ta
        } else {
            tb
        };
        let nmin = fxs_max(t_min, t0);
        let nmax = fxs_min(t_max, t1);
        if nmax <= nmin {
            None
        } else {
            Some((nmin, nmax))
        }
    }
}

/// The outward normal of the face nearest to the hit point `p`, searched in
/// the fixed order x-, x+, y-, y+, z-, z+.
pub open spec fn spec_cube_normal(c: Cube, p: Point3) -> Vec3 {
    let dxm = fxs_abs(fxs_sub(p.x as int, c.min.x as int));
    let dxp = fxs_abs(fxs_sub(p.x as int, c.max.x as int));
    let dym = fxs_abs(fxs_sub(p.y as int, c.min.y as int));
    let dyp = fxs_abs(fxs_sub(p.y as int, c.max.y as int));
    let dzm = fxs_abs(fxs_sub(p.z as int, c.min.z as int));
    let dzp = fxs_abs(fxs_sub(p.z as int, c.max.z as int));
    let md = fxs_min(fxs_min(dxm, dxp), fxs_min(fxs_min(dym, dyp), fxs_min(dzm, dzp)));
    if fxs_abs(fxs_sub(dxm, md)) < FACE_EPS as int {
        Vec3 { x: (-SCALE) as i64, y: 0i64, z: 0i64 }
    } else if fxs_abs(fxs_sub(dxp, md)) < FACE_EPS as int {
        Vec3 { x: SCALE, y: 0i64, z: 0i64 }
    } else if fxs_abs(fxs_sub(dym, md)) < FACE_EPS as int {
        Vec3 { x: 0i64, y: (-SCALE) as i64, z: 0i64 }
    } else if fxs_abs(fxs_sub(dyp, md)) < FACE_EPS as int {
        Vec3 { x: 0i64, y: SCALE, z: 0i64 }
    } else if fxs_abs(fxs_sub(dzm, md)) < FACE_EPS as int {
        Vec3 { x: 0i64, y: 0i64, z: (-SCALE) as i64 }
    } else if fxs_abs(fxs_sub(dzp, md)) < FACE_EPS as int {
        Vec3 { x: 0i64, y: 0i64, z: SCALE }
    } else {
        Vec3 { x: 0i64, y: 0i64, z: 0i64 }
    }
}

/// Slab intersection over the three axes; the hit parameter is the final
/// lower bound, and the face normal is recovered from the hit point.
pub open spec fn spec_cube_hit(c: Cube, r: Ray, ray_t: Interval) -> Option<HitRecord> {
    match spec_slab(
        r.origin.x as int,
        r.direction.x as int,
        c.min.x as int,
        c.max.x as int,
        ray_t.min as int,
        ray_t.max as int,
    ) {
        None => None,
        Some((tx_min, tx_max)) => match spec_slab(
            r.origin.y as int,
            r.direction.y as int,
            c.min.y as int,
            c.max.y as int,
            tx_min,
            tx_max,
        ) {
            None => None,
            Some((ty_min, ty_max)) => match spec_slab(
                r.origin.z as int,
                r.direction.z as int,
                c.min.z as int,
                c.max.z as int,
                ty_min,
                ty_max,
            ) {
                None => None,
                Some((tz_min, _)) => {
                    if !spec_surrounds(ray_t, tz_min) {
                        None
                    } else {
                        let p = spec_ray_at(r, tz_min);
                        Some(
                            spec_set_face_normal(
                                HitRecord {
                                    t: tz_min as i64,
                                    p,
                                    normal: spec_cube_normal(c, p),
                                    front_face: true,
                                    mat: c.mat,
                                },
                                r,
                            ),
                        )
                    }
                },
            },
        },
    }
}

fn slab(o: i64, d: i64, lo_b: i64, hi_b: i64, t_min: i64, t_max: i64) -> (res: Option<(i64, i64)>)
    ensures
        res matches Some(b) ==> spec_slab(
            o as int,
            d as int,
            lo_b as int,
            hi_b as int,
            t_min as int,
            t_max as int,
        ) == Some((b.0 as int, b.1 as int)),
        res is None ==> spec_slab(
            o as int,
            d as int,
            lo_b as int,
            hi_b as int,
            t_min as int,
            t_max as int,
        ) is None,
{
    if d == 0 {
        if o < lo_b || o > hi_b {
            None
        } else if t_max <= t_min {
            None
        } else {
            Some((t_min, t_max))
        }
    } else {
        let ta: i64 = fx_div(fx_sub(lo_b, o), d);
        let tb: i64 = fx_div(fx_sub(hi_b, o), d);
        let t0: i64 = if d < 0 {
            tb
        } else {
            ta
        };
        let t1: i64 = if d < 0 {
            ta
        } else {
            tb
        };
        let nmin: i64 = fx_max(t_min, t0);
        let nmax: i64 = fx_min(t_max, t1);
        if nmax <= nmin {
            None
        } else {
            Some((nmin, nmax))
        }
    }
}

fn cube_normal(c: &Cube, p: Point3) -> (n: Vec3)
    ensures
        n == spec_cube_normal(*c, p),
{
    let dxm: i64 = fx_abs(fx_sub(p.x, c.min.x));
    let dxp: i64 = fx_abs(fx_sub(p.x, c.max.x));
    let dym: i64 = fx_abs(fx_sub(p.y, c.min.y));
    let dyp: i64 = fx_abs(fx_sub(p.y, c.max.y));
    let dzm: i64 = fx_abs(fx_sub(p.z, c.min.z));
    let dzp: i64 = fx_abs(fx_sub(p.z, c.max.z));
    let md: i64 = fx_min(fx_min(dxm, dxp), fx_min(fx_min(dym, dyp), fx_min(dzm, dzp)));
    if fx_abs(fx_sub(dxm, md)) < FACE_EPS {
        Vec3::new(-SCALE, 0, 0)
    } else if fx_abs(fx_sub(dxp, md)) < FACE_EPS {
        Vec3::new(SCALE, 0, 0)
    } else if fx_abs(fx_sub(dym, md)) < FACE_EPS {
        Vec3::new(0, -SCALE, 0)
    } else if fx_abs(fx_sub(dyp, md)) < FACE_EPS {
        Vec3::new(0, SCALE, 0)
    } else if fx_abs(fx_sub(dzm, md)) < FACE_EPS {
        Vec3::new(0, 0, -SCALE)
    } else if fx_abs(fx_sub(dzp, md)) < FACE_EPS {
        Vec3::new(0, 0, SCALE)
    } else {
        Vec3::new(0, 0, 0)
    }
}

impl Cube {
    pub fn new(min: Point3, max: Point3, mat: Material) -> (c: Cube)
        ensures
            c == (Cube { min, max, mat }),
    {
        Cube { min, max, mat }
    }

    /// A cube centered at `center` with edge length `size`.
    pub fn from_center_size(center: Point3, size: i64, mat: Material) -> (c: Cube)
        ensures
            c == (Cube {
                min: Vec3 {
                    x: fxs_sub(center.x as int, fxs_div(size as int, 2 * SCALE as int)) as i64,
                    y: fxs_sub(center.y as int, fxs_div(size as int, 2 * SCALE as int)) as i64,
                    z: fxs_sub(center.z as int, fxs_div(size as int, 2 * SCALE as int)) as i64,
                },
                max: Vec3 {
                    x: fxs_add(center.x as int, fxs_div(size as int, 2 * SCALE as int)) as i64,
                    y: fxs_add(center.y as int, fxs_div(size as int, 2 * SCALE as int)) as i64,
                    z: fxs_add(center.z as int, fxs_div(size as int, 2 * SCALE as int)) as i64,
                },
                mat,
            }),
    {
        let half: i64 = fx_div(size, 2 * SCALE);
        Cube::new(
            Vec3::new(fx_sub(center.x, half), fx_sub(center.y, half), fx_sub(center.z, half)),
            Vec3::new(fx_add(center.x, half), fx_add(center.y, half), fx_add(center.z, half)),
            mat,
        )
    }

    pub fn hit(&self, r: &Ray, ray_t: Interval) -> (res: Option<HitRecord>)
        ensures
            res == spec_cube_hit(*self, *r, ray_t),
    {
        let sx: Option<(i64, i64)> = slab(
            r.origin.x,
            r.direction.x,
            self.min.x,
            self.max.x,
            ray_t.min,
            ray_t.max,
        );
        let (tx_min, tx_max): (i64, i64) = match sx {
            None => {
                return None;
            },
            Some(b) => b,
        };
        let sy: Option<(i64, i64)> = slab(
            r.origin.y,
            r.direction.y,
            self.min.y,
            self.max.y,
            tx_min,
            tx_max,
        );
        let (ty_min, ty_max): (i64, i64) = match sy {
            None => {
                return None;
            },
            Some(b) => b,
        };
        let sz: Option<(i64, i64)> = slab(
            r.origin.z,
            r.direction.z,
            self.min.z,
            self.max.z,
            ty_min,
            ty_max,
        );
        let (tz_min, _tz_max): (i64, i64) = match sz {
            None => {
                return None;
            },
            Some(b) => b,
        };
        if !ray_t.surrounds(tz_min) {
            return None;
        }
        let p: Point3 = r.at(tz_min);
        let normal: Vec3 = cube_normal(self, p);
        let mut rec: HitRecord = HitRecord::new(tz_min, p, normal, self.mat);
        rec.set_face_normal(r);
        Some(rec)
    }
}

/// A cube hit lies strictly inside the queried interval, and its point is
/// the ray evaluated at its parameter.
pub proof fn lemma_cube_hit_in_interval(c: Cube, r: Ray, ray_t: Interval)
    ensures
        spec_cube_hit(c, r, ray_t) matches Some(rec) ==> spec_surrounds(ray_t, rec.t as int)
            && rec.p == spec_ray_at(r, rec.t as int),
{
}

/// Coordinate bound (400 units) under which the containment analysis is
/// free of saturation.
pub const BOX_COMP_MAX: i64 = 400_000_000;

/// Direction components under this magnitude (0.001) graze their slab too
/// shallowly for the containment analysis.
pub const BOX_DIR_MIN: i64 = 1_000;

/// One axis of the containment analysis: a parameter between the slab's two
/// roots lands the coordinate inside the bounds, within a tolerance of one
/// direction component per unit plus two grid units.
proof fn lemma_cube_axis_contained(o: int, d: int, lo_b: int, hi_b: int, t: int)
    requires
        iabs_s(o) <= BOX_COMP_MAX as int,
        iabs_s(lo_b) <= BOX_COMP_MAX as int,
        iabs_s(hi_b) <= BOX_COMP_MAX as int,
        BOX_DIR_MIN as int <= iabs_s(d) <= BOX_COMP_MAX as int,
        0 < t <= 1_000_000_000,
        t >= (if d < 0 {
            fxs_div(hi_b - o, d)
        } else {
            fxs_div(lo_b - o, d)
        }),
        t < (if d < 0 {
            fxs_div(lo_b - o, d)
        } else {
            fxs_div(hi_b - o, d)
        }),
    ensures
        lo_b - tdiv_s(iabs_s(d), SCALE as int) - 2 <= o + fxs_mul(t, d),
        o + fxs_mul(t, d) <= hi_b + tdiv_s(iabs_s(d), SCALE as int) + 2,
{
    let s = SCALE as int;
    let eps = tdiv_s(iabs_s(d), s);
    crate::fx::lemma_div_bounds(iabs_s(d), s);
    assert(iabs_s(t * d) <= 400_000_000_000_000_000) by (nonlinear_arith)
        requires
            0 <= t <= 1_000_000_000,
            -400_000_000 <= d <= 400_000_000,
    ;
    lemma_tdiv_rem(t * d, s);
    let qd = tdiv_s(t * d, s);
    assert(fxs_mul(t, d) == qd);
    let ta = tdiv_s((lo_b - o) * s, d);
    let tb = tdiv_s((hi_b - o) * s, d);
    vstd::arithmetic::div_mod::lemma_div_is_ordered_by_denominator(
        iabs_s((lo_b - o) * s),
        BOX_DIR_MIN as int,
        iabs_s(d),
    );
    vstd::arithmetic::div_mod::lemma_div_is_ordered_by_denominator(
        iabs_s((hi_b - o) * s),
        BOX_DIR_MIN as int,
        iabs_s(d),
    );
    vstd::arithmetic::div_mod::lemma_div_is_ordered(
        iabs_s((lo_b - o) * s),
        800_000_000_000_000int,
        BOX_DIR_MIN as int,
    );
    vstd::arithmetic::div_mod::lemma_div_is_ordered(
        iabs_s((hi_b - o) * s),
        800_000_000_000_000int,
        BOX_DIR_MIN as int,
    );
    assert(iabs_s(ta) <= 800_000_000_000);
    assert(iabs_s(tb) <= 800_000_000_000);
    assert(fxs_div(lo_b - o, d) == ta);
    assert(fxs_div(hi_b - o, d) == tb);
    lemma_tdiv_rem((lo_b - o) * s, d);
    lemma_tdiv_rem((hi_b - o) * s, d);
    if d > 0 {
        assert(t * d >= d * ta) by (nonlinear_arith)
            requires
                t >= ta,
                d > 0,
        ;
        assert(t * d <= d * tb - d) by (nonlinear_arith)
            requires
                t <= tb - 1,
                d > 0,
        ;
    } else {
        assert(t * d >= d * ta + iabs_s(d)) by (nonlinear_arith)
            requires
                t <= ta - 1,
                d < 0,
                iabs_s(d) == -d,
        ;
        assert(t * d <= d * tb) by (nonlinear_arith)
            requires
                t >= tb,
                d < 0,
        ;
    }
}

/// A reported cube hit lies on the box within a numerical tolerance: on each
/// axis the hit point is inside the bounds up to one direction component per
/// unit plus two grid units. Holds for queries within 1000 units of distance
/// over scenes within 400 units, for rays whose direction components are
/// each either zero or at least a thousandth.
#[verifier::rlimit(100)]
pub proof fn lemma_cube_hit_contained(c: Cube, r: Ray, ray_t: Interval)
    requires
        iabs_s(c.min.x as int) <= BOX_COMP_MAX as int,
        iabs_s(c.min.y as int) <= BOX_COMP_MAX as int,
        iabs_s(c.min.z as int) <= BOX_COMP_MAX as int,
        iabs_s(c.max.x as int) <= BOX_COMP_MAX as int,
        iabs_s(c.max.y as int) <= BOX_COMP_MAX as int,
        iabs_s(c.max.z as int) <= BOX_COMP_MAX as int,
        iabs_s(r.origin.x as int) <= BOX_COMP_MAX as int,
        iabs_s(r.origin.y as int) <= BOX_COMP_MAX as int,
        iabs_s(r.origin.z as int) <= BOX_COMP_MAX as int,
        iabs_s(r.direction.x as int) <= BOX_COMP_MAX as int,
        iabs_s(r.direction.y as int) <= BOX_COMP_MAX as int,
        iabs_s(r.direction.z as int) <= BOX_COMP_MAX as int,
        r.direction.x == 0 || iabs_s(r.direction.x as int) >= BOX_DIR_MIN as int,
        r.direction.y == 0 || iabs_s(r.direction.y as int) >= BOX_DIR_MIN as int,
        r.direction.z == 0 || iabs_s(r.direction.z as int) >= BOX_DIR_MIN as int,
        0 <= ray_t.min,
        ray_t.max <= 1_000_000_000,
    ensures
        spec_cube_hit(c, r, ray_t) matches Some(rec) ==> {
            let s = SCALE as int;
            (c.min.x as int) - tdiv_s(iabs_s(r.direction.x as int), s) - 2 <= rec.p.x as int
                && rec.p.x as int <= (c.max.x as int) + tdiv_s(iabs_s(r.direction.x as int), s) + 2
                && (c.min.y as int) - tdiv_s(iabs_s(r.direction.y as int), s) - 2 <= rec.p.y as int
                && rec.p.y as int <= (c.max.y as int) + tdiv_s(iabs_s(r.direction.y as int), s) + 2
                && (c.min.z as int) - tdiv_s(iabs_s(r.direction.z as int), s) - 2 <= rec.p.z as int
                && rec.p.z as int <= (c.max.z as int) + tdiv_s(iabs_s(r.direction.z as int), s) + 2
        },
{
    let sx = spec_slab(
        r.origin.x as int,
        r.direction.x as int,
        c.min.x as int,
        c.max.x as int,
        ray_t.min as int,
        ray_t.max as int,
    );
    match sx {
        None => {},
        Some(bx) => {
            let sy = spec_slab(
                r.origin.y as int,
                r.direction.y as int,
                c.min.y as int,
                c.max.y as int,
                bx.0,
                bx.1,
            );
            match sy {
                None => {},
                Some(by) => {
                    let sz = spec_slab(
                        r.origin.z as int,
                        r.direction.z as int,
                        c.min.z as int,
                        c.max.z as int,
                        by.0,
                        by.1,
                    );
                    match sz {
                        None => {},
                        Some(bz) => {
                            let t = bz.0;
                            if spec_surrounds(ray_t, t) {
                                if r.direction.x != 0 {
                                    lemma_cube_axis_contained(
                                        r.origin.x as int,
                                        r.direction.x as int,
                                        c.min.x as int,
                                        c.max.x as int,
                                        t,
                                    );
                                }
                                if r.direction.y != 0 {
                                    lemma_cube_axis_contained(
                                        r.origin.y as int,
                                        r.direction.y as int,
                                        c.min.y as int,
                                        c.max.y as int,
                                        t,
                                    );
                                }
                                if r.direction.z != 0 {
                                    lemma_cube_axis_contained(
                                        r.origin.z as int,
                                        r.direction.z as int,
                                        c.min.z as int,
                                        c.max.z as int,
                                        t,
                                    );
                                }
                            }
                        },
                    }
                },
            }
        },
    }
}

/// A cube's reported normal faces against the incoming ray: whichever face
/// is picked, its axis normal has in-range components.
pub proof fn lemma_cube_normal_faces_ray(c: Cube, r: Ray, ray_t: Interval)
    ensures
        spec_cube_hit(c, r, ray_t) matches Some(rec) ==> crate::vec3::spec_dot(
            rec.normal,
            r.direction,
        ) <= 0,
{
    match spec_slab(
        r.origin.x as int,
        r.direction.x as int,
        c.min.x as int,
        c.max.x as int,
        ray_t.min as int,
        ray_t.max as int,
    ) {
        None => {},
        Some(bx) => match spec_slab(
            r.origin.y as int,
            r.direction.y as int,
            c.min.y as int,
            c.max.y as int,
            bx.0,
            bx.1,
        ) {
            None => {},
            Some(by) => match spec_slab(
                r.origin.z as int,
                r.direction.z as int,
                c.min.z as int,
                c.max.z as int,
                by.0,
                by.1,
            ) {
                None => {},
                Some(bz) => {
                    let t = bz.0;
                    if spec_surrounds(ray_t, t) {
                        let p = spec_ray_at(r, t);
                        crate::hittable::lemma_face_normal_against_ray(
                            HitRecord {
                                t: t as i64,
                                p,
                                normal: spec_cube_normal(c, p),
                                front_face: true,
                                mat: c.mat,
                            },
                            r,
                        );
                    }
                },
            },
        },
    }
}

/// Shrinking `t_max` shrinks a slab's upper bound by the same amount and
/// leaves its lower bound alone.
proof fn lemma_slab_shrink(o: int, d: int, lo_b: int, hi_b: int, t_min: int, t_max: int, cap: int)
    requires
        cap <= t_max,
    ensures
        match spec_slab(o, d, lo_b, hi_b, t_min, t_max) {
            Some(b) => spec_slab(o, d, lo_b, hi_b, t_min, cap) == if cap <= b.0 {
                None::<(int, int)>
            } else {
                Some((b.0, fxs_min(b.1, cap)))
            },
            None => spec_slab(o, d, lo_b, hi_b, t_min, cap) is None,
        },
{
}

/// Shrinking the far end of the query interval keeps exactly the hits whose
/// parameter still lies under it: the slab lower bounds do not depend on the
/// far end, and the hit parameter is their maximum.
pub proof fn lemma_cube_hit_shrink(c: Cube, r: Ray, t0: i64, t1: i64, t1p: i64)
    requires
        t1p <= t1,
    ensures
        spec_cube_hit(c, r, Interval { min: t0, max: t1p }) == crate::hittable::spec_hit_restrict(
            spec_cube_hit(c, r, Interval { min: t0, max: t1 }),
            t1p as int,
        ),
{
    let sx = spec_slab(
        r.origin.x as int,
        r.direction.x as int,
        c.min.x as int,
        c.max.x as int,
        t0 as int,
        t1 as int,
    );
    lemma_slab_shrink(
        r.origin.x as int,
        r.direction.x as int,
        c.min.x as int,
        c.max.x as int,
        t0 as int,
        t1 as int,
        t1p as int,
    );
    match sx {
        None => {},
        Some(bx) => {
            lemma_slab_shrink(
                r.origin.y as int,
                r.direction.y as int,
                c.min.y as int,
                c.max.y as int,
                bx.0,
                bx.1,
                fxs_min(bx.1, t1p as int),
            );
            let sy = spec_slab(
                r.origin.y as int,
                r.direction.y as int,
                c.min.y as int,
                c.max.y as int,
                bx.0,
                bx.1,
            );
            match sy {
                None => {},
                Some(by) => {
                    lemma_slab_shrink(
                        r.origin.z as int,
                        r.direction.z as int,
                        c.min.z as int,
                        c.max.z as int,
                        by.0,
                        by.1,
                        fxs_min(by.1, t1p as int),
                    );
                },
            }
        },
    }
}

impl Hittable for Cube {
    fn hit(&self, r: &Ray, ray_t: Interval) -> (res: Option<HitRecord>) {
        let res = Cube::hit(self, r, ray_t);
        proof {
            lemma_cube_hit_in_interval(*self, *r, ray_t);
        }
        res
    }
}

} // verus!
