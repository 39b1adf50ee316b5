//! Scattering policies: Lambertian diffuse, metal with fuzz, and a
//! refractive dielectric.
//!
//! The set of materials is closed, so dispatch is a tagged union. Scattering
//! that draws randomness takes the generator explicitly; each function
//! returns exactly the value of its spec, and the properties the integrator
//! depends on (a Lambertian always scatters, a dielectric always scatters
//! with white attenuation, a metal absorbs exactly when the perturbed
//! reflection dips below the surface) are stated as postconditions.

use vstd::prelude::*;
use crate::color::Color;
use crate::fx::{fxs_div, fxs_min, fxs_mul, fxs_sub, fxs_sqrt, fx_div, fx_min, fx_mul, fx_sub,
    fx_sqrt, SCALE};
use crate::hittable::HitRecord;
use crate::ray::Ray;
use crate::util::Rng;
use crate::vec3::{
    Vec3, spec_dot, spec_near_zero, spec_random_unit_vector, spec_reflect, spec_refract,
    spec_unit, spec_vadd, spec_vneg, spec_vscale,
};

verus! {

/// Diffuse: scatter about the normal, attenuate by the albedo, optionally
/// glow with a self-emission color (zero unless built emissive).
#[derive(Clone, Copy, Debug, PartialEq, Eq, Structural)]
pub struct Lambertian {
    pub albedo: Color,
    pub emission: Color,
}

/// Specular with fuzz: reflect, perturb by `fuzz` times a random unit
/// vector, absorb if the result dips below the surface.
#[derive(Clone, Copy, Debug, PartialEq, Eq, Structural)]
pub struct Metal {
    pub albedo: Color,
    pub fuzz: i64,
}

/// Refractive: always scatters, attenuation is exactly white.
#[derive(Clone, Copy, Debug, PartialEq, Eq, Structural)]
pub struct Dialectric {
    pub refraction_index: i64,
}

/// The closed set of scattering policies.
#[derive(Clone, Copy, Debug, PartialEq, Eq, Structural)]
pub enum Material {
    Lambertian(Lambertian),
    Metal(Metal),
    Dialectric(Dialectric),
}

pub open spec fn spec_black() -> Color {
    Color { r: 0i64, g: 0i64, b: 0i64 }
}

pub open spec fn spec_white() -> Color {
    Color { r: SCALE, g: SCALE, b: SCALE }
}

/// What a surface of this material emits by itself.
pub open spec fn spec_emission(m: Material) -> Color {
    match m {
        Material::Lambertian(l) => l.emission,
        Material::Metal(_) => spec_black(),
        Material::Dialectric(_) => spec_black(),
    }
}

/// Lambertian scattering from state `s`: direction is the surface normal
/// plus a random unit vector, falling back to the normal when that sum is
/// degenerate. Always scatters.
pub open spec fn spec_lambertian_scatter(l: Lambertian, rec: HitRecord, s: u64) -> (
    Option<(Color, Ray)>,
    u64,
) {
    let (ruv, s1) = spec_random_unit_vector(s);
    let sum = spec_vadd(rec.normal, ruv);
    let dir = if spec_near_zero(sum) {
        rec.normal
    } else {
        sum
    };
    (Some((l.albedo, Ray { origin: rec.p, direction: dir })), s1)
}

/// The perturbed reflection a metal scatters along from state `s`: the
/// mirrored incoming direction plus `fuzz` times a random unit vector.
pub open spec fn spec_metal_dir(m: Metal, r_in: Ray, rec: HitRecord, s: u64) -> Vec3 {
    let (ruv, _) = spec_random_unit_vector(s);
    spec_vadd(spec_reflect(r_in.direction, rec.normal), spec_vscale(m.fuzz as int, ruv))
}

/// Metal scattering: absorb exactly when the perturbed reflection does not
/// point away from the surface.
pub open spec fn spec_metal_scatter(m: Metal, r_in: Ray, rec: HitRecord, s: u64) -> (
    Option<(Color, Ray)>,
    u64,
) {
    let (ruv, s1) = spec_random_unit_vector(s);
    let dir = spec_metal_dir(m, r_in, rec, s);
    if spec_dot(dir, rec.normal) > 0 {
        (Some((m.albedo, Ray { origin: rec.p, direction: dir })), s1)
    } else {
        (None, s1)
    }
}

/// The refraction-index ratio in effect: inverted when the ray enters
/// through the front face.
pub open spec fn spec_dialectric_ratio(d: Dialectric, front_face: bool) -> int {
    if front_face {
        fxs_div(SCALE as int, d.refraction_index as int)
    } else {
        d.refraction_index as int
    }
}

/// Dielectric scattering: refract, or reflect under total internal
/// reflection; deterministic, always scatters, attenuation is white.
pub open spec fn spec_dialectric_scatter(d: Dialectric, r_in: Ray, rec: HitRecord) -> Option<
    (Color, Ray),
> {
    let ri = spec_dialectric_ratio(d, rec.front_face);
    let unit_dir = spec_unit(r_in.direction);
    let cos_theta = fxs_min(spec_dot(spec_vneg(unit_dir), rec.normal), SCALE as int);
    let sin_theta = fxs_sqrt(fxs_sub(SCALE as int, fxs_mul(cos_theta, cos_theta)));
    let dir = if fxs_mul(ri, sin_theta) > SCALE as int {
        spec_reflect(unit_dir, rec.normal)
    } else {
        spec_refract(unit_dir, rec.normal, ri)
    };
    Some((spec_white(), Ray { origin: rec.p, direction: dir }))
}

/// Scattering of any material from state `s`, with the state after it.
pub open spec fn spec_scatter(m: Material, r_in: Ray, rec: HitRecord, s: u64) -> (
    Option<(Color, Ray)>,
    u64,
) {
    match m {
        Material::Lambertian(l) => spec_lambertian_scatter(l, rec, s),
        Material::Metal(mm) => spec_metal_scatter(mm, r_in, rec, s),
        Material::Dialectric(d) => (spec_dialectric_scatter(d, r_in, rec), s),
    }
}

impl Lambertian {
    pub fn new(albedo: Color) -> (m: Lambertian)
        ensures
            m == (Lambertian { albedo, emission: spec_black() }),
    {
        Lambertian { albedo, emission: Color::new(0, 0, 0) }
    }

    /// A diffuse surface that also glows.
    pub fn new_emissive(albedo: Color, emission: Color) -> (m: Lambertian)
        ensures
            m == (Lambertian { albedo, emission }),
    {
        Lambertian { albedo, emission }
    }

    pub fn scatter(&self, _r_in: &Ray, rec: &HitRecord, rng: &mut Rng) -> (res: Option<
        (Color, Ray),
    >)
        ensures
            (res, final(rng).state) == spec_lambertian_scatter(*self, *rec, old(rng).state),
            res.is_some(),
    {
        let ruv: Vec3 = Vec3::random_unit_vector(rng);
        let mut scatter_direction: Vec3 = rec.normal.add(ruv);
        if scatter_direction.near_zero() {
            scatter_direction = rec.normal;
        }
        Some((self.albedo, Ray::new(rec.p, scatter_direction)))
    }
}

impl Metal {
    /// Fuzz is clamped into [0, 1] at construction.
    pub fn new(albedo: Color, fuzz: i64) -> (m: Metal)
        ensures
            m == (Metal { albedo, fuzz: crate::fx::fxs_clamp(fuzz as int, 0, SCALE as int) as i64 }),
    {
        Metal { albedo, fuzz: crate::fx::fx_clamp(fuzz, 0, SCALE) }
    }

    pub fn scatter(&self, r_in: &Ray, rec: &HitRecord, rng: &mut Rng) -> (res: Option<
        (Color, Ray),
    >)
        ensures
            (res, final(rng).state) == spec_metal_scatter(*self, *r_in, *rec, old(rng).state),
            res.is_some() <==> spec_dot(
                spec_metal_dir(*self, *r_in, *rec, old(rng).state),
                rec.normal,
            ) > 0,
    {
        let reflected: Vec3 = Vec3::reflect(r_in.direction, rec.normal);
        let ruv: Vec3 = Vec3::random_unit_vector(rng);
        let dir: Vec3 = reflected.add(ruv.scale(self.fuzz));
        let scattered: Ray = Ray::new(rec.p, dir);
        if crate::vec3::dot(scattered.direction, rec.normal) > 0 {
            Some((self.albedo, scattered))
        } else {
            None
        }
    }
}

impl Dialectric {
    pub fn new(refraction_index: i64) -> (m: Dialectric)
        ensures
            m == (Dialectric { refraction_index }),
    {
        Dialectric { refraction_index }
    }

    pub fn scatter(&self, r_in: &Ray, rec: &HitRecord) -> (res: Option<(Color, Ray)>)
        ensures
            res == spec_dialectric_scatter(*self, *r_in, *rec),
            res.is_some(),
            res matches Some((attenuation, _)) ==> attenuation == spec_white(),
    {
        let attenuation: Color = Color::new(SCALE, SCALE, SCALE);
        let ri: i64 = if rec.front_face {
            fx_div(SCALE, self.refraction_index)
        } else {
            self.refraction_index
        };
        let unit_direction: Vec3 = r_in.direction.unit_vector();
        let cos_theta: i64 = fx_min(Vec3::dot(unit_direction.neg(), rec.normal), SCALE);
        let sin_theta: i64 = fx_sqrt(fx_sub(SCALE, fx_mul(cos_theta, cos_theta)));
        let dir: Vec3 = if fx_mul(ri, sin_theta) > SCALE {
            Vec3::reflect(unit_direction, rec.normal)
        } else {
            Vec3::refract(unit_direction, rec.normal, ri)
        };
        Some((attenuation, Ray::new(rec.p, dir)))
    }
}

impl Material {
    pub fn emission(&self) -> (c: Color)
        ensures
            c == spec_emission(*self),
    {
        match self {
            Material::Lambertian(l) => l.emission,
            Material::Metal(_) => Color::new(0, 0, 0),
            Material::Dialectric(_) => Color::new(0, 0, 0),
        }
    }

    pub fn scatter(&self, r_in: &Ray, rec: &HitRecord, rng: &mut Rng) -> (res: Option<
        (Color, Ray),
    >)
        ensures
            (res, final(rng).state) == spec_scatter(*self, *r_in, *rec, old(rng).state),
    {
        match self {
            Material::Lambertian(l) => l.scatter(r_in, rec, rng),
            Material::Metal(m) => m.scatter(r_in, rec, rng),
            Material::Dialectric(d) => d.scatter(r_in, rec),
        }
    }
}

} // verus!
