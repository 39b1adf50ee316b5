//! The camera and the light-transport integrator.
//!
//! The camera derives its viewport geometry once in `initialize`, casts one
//! jittered primary ray per sample, and averages `ray_color` evaluations per
//! pixel. `ray_color` recurses to a depth bound, blending emission, direct
//! point-light shading with shadow rays, and recursive indirect light.
//!
//! Every pixel draws from a generator seeded by the render seed and the
//! pixel's index alone, so pixels are independent (workers can evaluate them
//! in any order or in parallel) and a fixed seed reproduces the image
//! exactly: `render` returns precisely `spec_render_pixel` at every index.

use vstd::prelude::*;
use crate::color::{Color, spec_cadd, spec_cmul, spec_cscale, spec_channel_byte, color_bytes};
use crate::fx::{fxs_abs, fxs_add, fxs_sub, fxs_mul, fxs_div, fxs_max, fx_abs, fx_add, fx_sub,
    fx_mul, fx_div, fx_max, tdiv_s, SCALE, FMAX};
use crate::hittable::HitRecord;
use crate::hittable_list::{HittableList, Primitive, spec_list_hit};
use crate::interval::Interval;
use crate::light::Light;
use crate::material::{Material, spec_black, spec_emission, spec_scatter};
use crate::ray::Ray;
use crate::trig::{spec_deg_to_rad, spec_tan, deg_to_rad, tan_fx};
use crate::util::{Rng, spec_rand_unit, spec_rng_next_state};
use crate::vec3::{Vec3, Point3, spec_dot, spec_len, spec_unit, spec_vadd, spec_vsub, spec_vneg,
    spec_vscale, spec_vdiv, spec_cross, spec_random_in_unit_disk};

verus! {

/// Fixed-point 0.5.
pub const HALF: i64 = 500_000;

/// Fixed-point 0.001: the self-intersection guard used as the minimum hit
/// distance and as the shadow-ray offset along the normal.
pub const HIT_EPS: i64 = 1_000;

/// Fixed-point 0.05: a blocker whose mean emission exceeds this glows
/// through the shadow it casts.
pub const GLOW_THRESHOLD: i64 = 50_000;

/// Fixed-point 0.15: the fraction of a blocker's emission added to the
/// shadow it casts.
pub const GLOW_WEIGHT: i64 = 150_000;

/// Rasters are capped at this many pixels per side, so every index
/// computation fits the machine.
pub const MAX_IMAGE_SIDE: usize = 100_000_000;

/// Sample counts are capped so the averaging scale fits the fixed-point
/// range.
pub const MAX_SAMPLES: usize = 1_000_000;

/// Rasters are capped at this many pixels in all, so the buffer length fits
/// the machine.
pub const MAX_PIXELS: usize = 1_000_000_000;

pub struct Camera {
    pub aspect_ratio: i64,
    pub image_width: usize,
    pub samples_per_pixel: usize,
    pub max_depth: usize,
    pub vfov: i64,
    pub lookfrom: Point3,
    pub lookat: Point3,
    pub vup: Vec3,
    pub defocus_angle: i64,
    pub focus_dist: i64,
    pub image_height: usize,
    pub center: Point3,
    pub pixel00_loc: Point3,
    pub pixel_delta_u: Vec3,
    pub pixel_delta_v: Vec3,
    pub pixel_samples_scale: i64,
    pub u: Vec3,
    pub v: Vec3,
    pub w: Vec3,
    pub defocus_disk_u: Vec3,
    pub defocus_disk_v: Vec3,
}

/// The raster height derived from the width and the aspect ratio, at least 1.
pub open spec fn spec_image_height(cam: Camera) -> int {
    if cam.aspect_ratio <= 0 {
        1
    } else {
        let h = tdiv_s(cam.image_width as int * SCALE as int, cam.aspect_ratio as int);
        if h < 1 {
            1
        } else {
            h
        }
    }
}

/// The camera after `initialize`: configuration unchanged, every derived
/// field rebuilt from it.
pub open spec fn spec_initialized(cam: Camera) -> Camera {
    let image_height = spec_image_height(cam);
    let pixel_samples_scale = fxs_div(SCALE as int, cam.samples_per_pixel as int * SCALE as int);
    let center = cam.lookfrom;
    let theta = spec_deg_to_rad(cam.vfov as int);
    let h = spec_tan(fxs_div(theta, 2 * SCALE as int));
    let viewport_height = fxs_mul(fxs_mul(2 * SCALE as int, h), cam.focus_dist as int);
    let viewport_width = fxs_mul(
        viewport_height,
        fxs_div(cam.image_width as int * SCALE as int, image_height * SCALE as int),
    );
    let w = spec_unit(spec_vsub(cam.lookfrom, cam.lookat));
    let u = spec_unit(spec_cross(cam.vup, w));
    let v = spec_cross(w, u);
    let viewport_u = spec_vscale(viewport_width, u);
    let viewport_v = spec_vscale(viewport_height, spec_vneg(v));
    let pixel_delta_u = spec_vdiv(viewport_u, cam.image_width as int * SCALE as int);
    let pixel_delta_v = spec_vdiv(viewport_v, image_height * SCALE as int);
    let viewport_upper_left = spec_vsub(
        spec_vsub(
            spec_vsub(center, spec_vscale(cam.focus_dist as int, w)),
            spec_vdiv(viewport_u, 2 * SCALE as int),
        ),
        spec_vdiv(viewport_v, 2 * SCALE as int),
    );
    let pixel00_loc = spec_vadd(
        viewport_upper_left,
        spec_vscale(HALF as int, spec_vadd(pixel_delta_u, pixel_delta_v)),
    );
    let defocus_radius = fxs_mul(
        cam.focus_dist as int,
        spec_tan(spec_deg_to_rad(fxs_div(cam.defocus_angle as int, 2 * SCALE as int))),
    );
    let defocus_disk_u = spec_vscale(defocus_radius, u);
    let defocus_disk_v = spec_vscale(defocus_radius, v);
    Camera {
        image_height: image_height as usize,
        center,
        pixel00_loc,
        pixel_delta_u,
        pixel_delta_v,
        pixel_samples_scale: pixel_samples_scale as i64,
        u,
        v,
        w,
        defocus_disk_u,
        defocus_disk_v,
        ..cam
    }
}

/// The background gradient: blend white to sky blue by the unit direction's
/// height.
pub open spec fn spec_background(r: Ray) -> Color {
    let unit_direction = spec_unit(r.direction);
    let a = fxs_mul(HALF as int, fxs_add(unit_direction.y as int, SCALE as int));
    spec_cadd(
        spec_cscale(fxs_sub(SCALE as int, a), Color { r: SCALE, g: SCALE, b: SCALE }),
        spec_cscale(a, Color { r: 500_000i64, g: 700_000i64, b: SCALE }),
    )
}

/// The background is radiance, never negative: with the length taken from
/// the exact sum of squares, a normalized direction's height stays within
/// one, the blend factor stays within [0, 1], and every channel of the
/// gradient is nonnegative. Holds whenever the direction's length does not
/// saturate (under a million units).
pub proof fn lemma_background_nonneg(r: Ray)
    requires
        spec_len(r.direction) < FMAX as int,
    ensures
        spec_background(r).r >= 0,
        spec_background(r).g >= 0,
        spec_background(r).b >= 0,
{
    let s = SCALE as int;
    let v = r.direction;
    let q = (v.x as int) * (v.x as int) + (v.y as int) * (v.y as int) + (v.z as int) * (v.z
        as int);
    assert((v.x as int) * (v.x as int) >= 0 && (v.y as int) * (v.y as int) >= 0 && (v.z as int)
        * (v.z as int) >= 0) by (nonlinear_arith);
    crate::fx::lemma_isqrt_exists(q);
    let l = spec_len(v);
    assert(l == crate::fx::isqrt_s(q));
    assert(l * l <= q && q < (l + 1) * (l + 1));
    let y = v.y as int;
    assert(crate::fx::iabs_s(y) <= l) by (nonlinear_arith)
        requires
            y * y <= q,
            q < (l + 1) * (l + 1),
            l >= 0,
            crate::fx::iabs_s(y) == if y >= 0 {
                y
            } else {
                -y
            },
    ;
    let uy = crate::fx::fxs_div(y, l);
    if l == 0 {
        assert(uy == 0);
    } else {
        vstd::arithmetic::div_mod::lemma_div_is_ordered(
            crate::fx::iabs_s(y) * s,
            l * s,
            l,
        );
        vstd::arithmetic::div_mod::lemma_div_multiples_vanish(s, l);
        assert(crate::fx::iabs_s(uy) <= s);
    }
    let a = fxs_mul(HALF as int, fxs_add(uy, s));
    crate::fx::lemma_div_bounds((HALF as int) * fxs_add(uy, s), s);
    assert(0 <= a && a <= s);
    vstd::arithmetic::div_mod::lemma_div_multiples_vanish(fxs_sub(s, a), s);
    vstd::arithmetic::div_mod::lemma_div_multiples_vanish(a, s);
    assert(fxs_mul(fxs_sub(s, a), s) == s - a);
    assert(fxs_mul(a, s) == a);
    crate::fx::lemma_div_bounds(a * 500_000, s);
    crate::fx::lemma_div_bounds(a * 700_000, s);
    assert(fxs_mul(a, 500_000) >= 0 && fxs_mul(a, 700_000) >= 0);
}
pub open spec fn spec_is_transparent(attenuation: Color, emission: Color) -> bool {
    fxs_abs(fxs_sub(attenuation.r as int, SCALE as int)) < HIT_EPS as int
        && fxs_abs(fxs_sub(attenuation.g as int, SCALE as int)) < HIT_EPS as int
        && fxs_abs(fxs_sub(attenuation.b as int, SCALE as int)) < HIT_EPS as int
        && fxs_add(fxs_add(emission.r as int, emission.g as int), emission.b as int) < HIT_EPS as int
}

/// One light's effect on the running direct-light sum at a hit: a shadow ray
/// from a normal-offset point toward the light; unoccluded, the light adds
/// its cosine-weighted color; occluded, it adds nothing unless the blocker
/// itself glows.
pub open spec fn spec_direct_light_step(
    objs: Seq<Primitive>,
    light: Light,
    rec: HitRecord,
    acc: Color,
) -> Color {
    let offset_point = spec_vadd(rec.p, spec_vscale(HIT_EPS as int, rec.normal));
    let to_light = spec_vsub(light.position, offset_point);
    let light_dir = spec_unit(to_light);
    let distance_to_light = spec_len(to_light);
    let shadow_hit = spec_list_hit(
        objs,
        Ray { origin: offset_point, direction: light_dir },
        Interval { min: HIT_EPS, max: distance_to_light as i64 },
    );
    let cos_theta = fxs_max(spec_dot(rec.normal, light_dir), 0);
    match shadow_hit {
        Some(shadow_rec) => {
            let blocker_emission = spec_emission(shadow_rec.mat);
            let emission_strength = fxs_div(
                fxs_add(
                    fxs_add(blocker_emission.r as int, blocker_emission.g as int),
                    blocker_emission.b as int,
                ),
                3 * SCALE as int,
            );
            if emission_strength > GLOW_THRESHOLD as int {
                spec_cadd(acc, spec_cscale(GLOW_WEIGHT as int, blocker_emission))
            } else {
                acc
            }
        },
        None => spec_cadd(
            acc,
            spec_cscale(fxs_mul(cos_theta, light.intensity as int), light.color),
        ),
    }
}

/// Direct lighting at a hit: every light's step, folded over the list.
pub open spec fn spec_direct_light(objs: Seq<Primitive>, lights: Seq<Light>, rec: HitRecord) -> Color
    decreases lights.len(),
{
    if lights.len() == 0 {
        spec_black()
    } else {
        spec_direct_light_step(
            objs,
            lights.last(),
            rec,
            spec_direct_light(objs, lights.drop_last(), rec),
        )
    }
}

/// One light's effect on the fallback direct-light sum used when a material
/// absorbs the ray: the same shadow ray, but an occluded light adds nothing
/// at all — no glow term in this degenerate path.
pub open spec fn spec_direct_light_basic_step(
    objs: Seq<Primitive>,
    light: Light,
    rec: HitRecord,
    acc: Color,
) -> Color {
    let offset_point = spec_vadd(rec.p, spec_vscale(HIT_EPS as int, rec.normal));
    let to_light = spec_vsub(light.position, offset_point);
    let light_dir = spec_unit(to_light);
    let distance_to_light = spec_len(to_light);
    let shadow_hit = spec_list_hit(
        objs,
        Ray { origin: offset_point, direction: light_dir },
        Interval { min: HIT_EPS, max: distance_to_light as i64 },
    );
    let cos_theta = fxs_max(spec_dot(rec.normal, light_dir), 0);
    match shadow_hit {
        Some(_) => acc,
        None => spec_cadd(
            acc,
            spec_cscale(fxs_mul(cos_theta, light.intensity as int), light.color),
        ),
    }
}

/// Fallback direct lighting for a non-scattering surface: every light's
/// basic step, folded over the list.
pub open spec fn spec_direct_light_basic(
    objs: Seq<Primitive>,
    lights: Seq<Light>,
    rec: HitRecord,
) -> Color
    decreases lights.len(),
{
    if lights.len() == 0 {
        spec_black()
    } else {
        spec_direct_light_basic_step(
            objs,
            lights.last(),
            rec,
            spec_direct_light_basic(objs, lights.drop_last(), rec),
        )
    }
}

/// The radiance carried back along a ray, and the generator state after the
/// evaluation. Depth exhausted is black; a miss is the background; a hit
/// blends emission, direct light and the recursive bounce, with transparent
/// scattering exempt from direct shading.
pub open spec fn spec_ray_color(
    r: Ray,
    depth: nat,
    objs: Seq<Primitive>,
    lights: Seq<Light>,
    s: u64,
) -> (Color, u64)
    decreases depth,
{
    if depth == 0 {
        (spec_black(), s)
    } else {
        match spec_list_hit(objs, r, Interval { min: HIT_EPS, max: FMAX }) {
            None => (spec_background(r), s),
            Some(rec) => {
                let emission = spec_emission(rec.mat);
                let (scat, s1) = spec_scatter(rec.mat, r, rec, s);
                match scat {
                    None => (spec_cadd(emission, spec_direct_light_basic(objs, lights, rec)), s1),
                    Some((attenuation, scattered)) => {
                        if spec_is_transparent(attenuation, emission) {
                            let (indirect, s2) = spec_ray_color(
                                scattered,
                                (depth - 1) as nat,
                                objs,
                                lights,
                                s1,
                            );
                            (spec_cmul(attenuation, indirect), s2)
                        } else {
                            let direct = spec_direct_light(objs, lights, rec);
                            let (indirect, s2) = spec_ray_color(
                                scattered,
                                (depth - 1) as nat,
                                objs,
                                lights,
                                s1,
                            );
                            (
                                spec_cadd(
                                    spec_cadd(emission, spec_cmul(direct, attenuation)),
                                    spec_cmul(attenuation, indirect),
                                ),
                                s2,
                            )
                        }
                    },
                }
            },
        }
    }
}

/// The two-draw jitter within the pixel square, and the state after it.
pub open spec fn spec_sample_square(s: u64) -> (Vec3, u64) {
    let s1 = spec_rng_next_state(s);
    let s2 = spec_rng_next_state(s1);
    (
        Vec3 {
            x: fxs_sub(spec_rand_unit(s) as int, HALF as int) as i64,
            y: fxs_sub(spec_rand_unit(s1) as int, HALF as int) as i64,
            z: 0i64,
        },
        s2,
    )
}

/// A point on the camera's defocus disk, and the state after the draw.
pub open spec fn spec_defocus_disk_sample(cam: Camera, s: u64) -> (Point3, u64) {
    let (p, s1) = spec_random_in_unit_disk(s);
    (
        spec_vadd(
            spec_vadd(cam.center, spec_vscale(p.x as int, cam.defocus_disk_u)),
            spec_vscale(p.y as int, cam.defocus_disk_v),
        ),
        s1,
    )
}

/// The jittered primary ray through pixel `(i, j)`, and the state after its
/// draws: origin at the camera center, or on the defocus disk when the
/// defocus angle is positive.
pub open spec fn spec_get_ray(cam: Camera, i: int, j: int, s: u64) -> (Ray, u64) {
    let (offset, s1) = spec_sample_square(s);
    let pixel_sample = spec_vadd(
        spec_vadd(
            cam.pixel00_loc,
            spec_vscale(fxs_add(i * SCALE as int, offset.x as int), cam.pixel_delta_u),
        ),
        spec_vscale(fxs_add(j * SCALE as int, offset.y as int), cam.pixel_delta_v),
    );
    let (ray_origin, s2) = if cam.defocus_angle <= 0 {
        (cam.center, s1)
    } else {
        spec_defocus_disk_sample(cam, s1)
    };
    (Ray { origin: ray_origin, direction: spec_vsub(pixel_sample, ray_origin) }, s2)
}

/// The sum of `n` sampled radiance evaluations at pixel `(i, j)`, and the
/// state after them.
pub open spec fn spec_accumulate(
    cam: Camera,
    objs: Seq<Primitive>,
    lights: Seq<Light>,
    i: int,
    j: int,
    s: u64,
    n: nat,
) -> (Color, u64)
    decreases n,
{
    if n == 0 {
        (spec_black(), s)
    } else {
        let (prev, s1) = spec_accumulate(cam, objs, lights, i, j, s, (n - 1) as nat);
        let (ray, s2) = spec_get_ray(cam, i, j, s1);
        let (c, s3) = spec_ray_color(ray, cam.max_depth as nat, objs, lights, s2);
        (spec_cadd(prev, c), s3)
    }
}

/// The generator state a pixel starts from: the render seed advanced by the
/// pixel's raster index.
pub open spec fn spec_pixel_seed(seed: u64, k: u64) -> u64 {
    vstd::wrapping::u64_specs::wrapping_add(
        seed,
        vstd::wrapping::u64_specs::wrapping_mul(k, crate::util::RNG_GAMMA),
    )
}

/// The three output bytes of pixel `(i, j)`: accumulate, average, quantize.
#[verifier::opaque]
pub open spec fn spec_render_pixel(
    cam: Camera,
    objs: Seq<Primitive>,
    lights: Seq<Light>,
    i: int,
    j: int,
    seed: u64,
) -> (u8, u8, u8) {
    let s0 = spec_pixel_seed(seed, (j * cam.image_width as int + i) as u64);
    let (sum, _) = spec_accumulate(cam, objs, lights, i, j, s0, cam.samples_per_pixel as nat);
    let avg = spec_cscale(cam.pixel_samples_scale as int, sum);
    (
        spec_channel_byte(avg.r as int) as u8,
        spec_channel_byte(avg.g as int) as u8,
        spec_channel_byte(avg.b as int) as u8,
    )
}

/// Rendering is a function of the camera configuration, the scene, the
/// lights and the seed alone: two rasters that each satisfy `render`'s
/// postcondition for the same inputs are identical, pixel for pixel.
pub proof fn lemma_render_round_trip(
    cam: Camera,
    objs: Seq<Primitive>,
    lights: Seq<Light>,
    seed: u64,
    first: Seq<(u8, u8, u8)>,
    second: Seq<(u8, u8, u8)>,
)
    requires
        first.len() == spec_image_height(cam) * cam.image_width as int,
        second.len() == spec_image_height(cam) * cam.image_width as int,
        forall|k: int|
            0 <= k < first.len() ==> first[k] == spec_render_pixel(
                spec_initialized(cam),
                objs,
                lights,
                k % cam.image_width as int,
                k / cam.image_width as int,
                seed,
            ),
        forall|k: int|
            0 <= k < second.len() ==> second[k] == spec_render_pixel(
                spec_initialized(cam),
                objs,
                lights,
                k % cam.image_width as int,
                k / cam.image_width as int,
                seed,
            ),
    ensures
        first == second,
{
    assert(first =~= second);
}

#[verifier::rlimit(100)]
fn light_step(world: &HittableList, light: &Light, rec: &HitRecord, acc: Color) -> (res: Color)
    ensures
        res == spec_direct_light_step(world@, *light, *rec, acc),
{
    let offset_point: Point3 = rec.p.add(rec.normal.scale(HIT_EPS));
    let to_light: Vec3 = light.position.sub(offset_point);
    let light_dir: Vec3 = to_light.unit_vector();
    let distance_to_light: i64 = to_light.length();
    let shadow_ray: Ray = Ray::new(offset_point, light_dir);
    let shadow_hit: Option<HitRecord> = world.hit(
        &shadow_ray,
        Interval::new(HIT_EPS, distance_to_light),
    );
    let cos_theta: i64 = fx_max(Vec3::dot(rec.normal, light_dir), 0);
    match shadow_hit {
        Some(shadow_rec) => {
            let blocker_emission: Color = shadow_rec.mat.emission();
            let emission_strength: i64 = fx_div(
                fx_add(fx_add(blocker_emission.r, blocker_emission.g), blocker_emission.b),
                3 * SCALE,
            );
            if emission_strength > GLOW_THRESHOLD {
                acc.add(blocker_emission.scale(GLOW_WEIGHT))
            } else {
                acc
            }
        },
        None => acc.add(light.color.scale(fx_mul(cos_theta, light.intensity))),
    }
}

#[verifier::rlimit(100)]
fn light_step_basic(world: &HittableList, light: &Light, rec: &HitRecord, acc: Color) -> (res:
    Color)
    ensures
        res == spec_direct_light_basic_step(world@, *light, *rec, acc),
{
    let offset_point: Point3 = rec.p.add(rec.normal.scale(HIT_EPS));
    let to_light: Vec3 = light.position.sub(offset_point);
    let light_dir: Vec3 = to_light.unit_vector();
    let distance_to_light: i64 = to_light.length();
    let shadow_ray: Ray = Ray::new(offset_point, light_dir);
    let shadow_hit: Option<HitRecord> = world.hit(
        &shadow_ray,
        Interval::new(HIT_EPS, distance_to_light),
    );
    let cos_theta: i64 = fx_max(Vec3::dot(rec.normal, light_dir), 0);
    match shadow_hit {
        Some(_) => acc,
        None => acc.add(light.color.scale(fx_mul(cos_theta, light.intensity))),
    }
}

fn direct_light_basic(world: &HittableList, lights: &Vec<Light>, rec: &HitRecord) -> (res: Color)
    ensures
        res == spec_direct_light_basic(world@, lights@, *rec),
{
    let mut acc: Color = Color::new(0, 0, 0);
    let mut li: usize = 0;
    while li < lights.len()
        invariant
            li <= lights.len(),
            acc == spec_direct_light_basic(world@, lights@.take(li as int), *rec),
        decreases lights.len() - li,
    {
        acc = light_step_basic(world, &lights[li], rec, acc);
        li = li + 1;
        proof {
            assert(lights@.take(li as int).drop_last() =~= lights@.take(li as int - 1));
            assert(lights@.take(li as int).last() == lights@[li as int - 1]);
        }
    }
    proof {
        assert(lights@.take(lights@.len() as int) =~= lights@);
    }
    acc
}

fn direct_light(world: &HittableList, lights: &Vec<Light>, rec: &HitRecord) -> (res: Color)
    ensures
        res == spec_direct_light(world@, lights@, *rec),
{
    let mut acc: Color = Color::new(0, 0, 0);
    let mut li: usize = 0;
    while li < lights.len()
        invariant
            li <= lights.len(),
            acc == spec_direct_light(world@, lights@.take(li as int), *rec),
        decreases lights.len() - li,
    {
        acc = light_step(world, &lights[li], rec, acc);
        li = li + 1;
        proof {
            assert(lights@.take(li as int).drop_last() =~= lights@.take(li as int - 1));
            assert(lights@.take(li as int).last() == lights@[li as int - 1]);
        }
    }
    proof {
        assert(lights@.take(lights@.len() as int) =~= lights@);
    }
    acc
}

impl Camera {
    pub fn new() -> (cam: Camera)
        ensures
            cam == (Camera {
                aspect_ratio: SCALE,
                image_width: 100usize,
                samples_per_pixel: 10usize,
                max_depth: 10usize,
                vfov: 90_000_000i64,
                lookfrom: Vec3 { x: 0i64, y: 0i64, z: 0i64 },
                lookat: Vec3 { x: 0i64, y: 0i64, z: (-SCALE) as i64 },
                vup: Vec3 { x: 0i64, y: SCALE, z: 0i64 },
                defocus_angle: 0i64,
                focus_dist: 0i64,
                image_height: 0usize,
                center: Vec3 { x: 0i64, y: 0i64, z: 0i64 },
                pixel00_loc: Vec3 { x: 0i64, y: 0i64, z: 0i64 },
                pixel_delta_u: Vec3 { x: 0i64, y: 0i64, z: 0i64 },
                pixel_delta_v: Vec3 { x: 0i64, y: 0i64, z: 0i64 },
                pixel_samples_scale: 0i64,
                u: Vec3 { x: 0i64, y: 0i64, z: 0i64 },
                v: Vec3 { x: 0i64, y: 0i64, z: 0i64 },
                w: Vec3 { x: 0i64, y: 0i64, z: 0i64 },
                defocus_disk_u: Vec3 { x: 0i64, y: 0i64, z: 0i64 },
                defocus_disk_v: Vec3 { x: 0i64, y: 0i64, z: 0i64 },
            }),
    {
        Camera {
            aspect_ratio: SCALE,
            image_width: 100,
            samples_per_pixel: 10,
            max_depth: 10,
            vfov: 90_000_000,
            lookfrom: Vec3::new(0, 0, 0),
            lookat: Vec3::new(0, 0, -SCALE),
            vup: Vec3::new(0, SCALE, 0),
            defocus_angle: 0,
            focus_dist: 0,
            image_height: 0,
            center: Vec3::new(0, 0, 0),
            pixel00_loc: Vec3::new(0, 0, 0),
            pixel_delta_u: Vec3::new(0, 0, 0),
            pixel_delta_v: Vec3::new(0, 0, 0),
            pixel_samples_scale: 0,
            u: Vec3::new(0, 0, 0),
            v: Vec3::new(0, 0, 0),
            w: Vec3::new(0, 0, 0),
            defocus_disk_u: Vec3::new(0, 0, 0),
            defocus_disk_v: Vec3::new(0, 0, 0),
        }
    }

    /// Derive every viewport field from the configuration. The bounds keep
    /// raster indices and the fixed-point sample scale within the machine's
    /// range; validating the configuration itself is the caller's job.
    pub fn initialize(&mut self)
        requires
            old(self).image_width <= MAX_IMAGE_SIDE,
            spec_image_height(*old(self)) <= MAX_IMAGE_SIDE as int,
            old(self).samples_per_pixel <= MAX_SAMPLES,
        ensures
            *final(self) == spec_initialized(*old(self)),
    {
        let w_fx: i64 = (self.image_width as i64) * SCALE;
        self.image_height = if self.aspect_ratio <= 0 {
            1
        } else {
            let hh: u64 = (w_fx as u64) / (self.aspect_ratio as u64);
            if hh < 1 {
                1
            } else {
                hh as usize
            }
        };
        let h_fx: i64 = (self.image_height as i64) * SCALE;
        self.pixel_samples_scale = fx_div(SCALE, (self.samples_per_pixel as i64) * SCALE);
        self.center = self.lookfrom;
        let theta: i64 = deg_to_rad(self.vfov);
        let h: i64 = tan_fx(fx_div(theta, 2 * SCALE));
        let viewport_height: i64 = fx_mul(fx_mul(2 * SCALE, h), self.focus_dist);
        let viewport_width: i64 = fx_mul(viewport_height, fx_div(w_fx, h_fx));
        self.w = self.lookfrom.sub(self.lookat).unit_vector();
        self.u = Vec3::cross(self.vup, self.w).unit_vector();
        self.v = Vec3::cross(self.w, self.u);
        let viewport_u: Vec3 = self.u.scale(viewport_width);
        let viewport_v: Vec3 = self.v.neg().scale(viewport_height);
        self.pixel_delta_u = viewport_u.div(w_fx);
        self.pixel_delta_v = viewport_v.div(h_fx);
        let viewport_upper_left: Point3 = self
            .center
            .sub(self.w.scale(self.focus_dist))
            .sub(viewport_u.div(2 * SCALE))
            .sub(viewport_v.div(2 * SCALE));
        self.pixel00_loc = viewport_upper_left.add(
            self.pixel_delta_u.add(self.pixel_delta_v).scale(HALF),
        );
        let defocus_radius: i64 = fx_mul(
            self.focus_dist,
            tan_fx(deg_to_rad(fx_div(self.defocus_angle, 2 * SCALE))),
        );
        self.defocus_disk_u = self.u.scale(defocus_radius);
        self.defocus_disk_v = self.v.scale(defocus_radius);
    }

    fn sample_square(&self, rng: &mut Rng) -> (offset: Vec3)
        ensures
            (offset, final(rng).state) == spec_sample_square(old(rng).state),
    {
        let x: i64 = fx_sub(rng.rand_unit(), HALF);
        let y: i64 = fx_sub(rng.rand_unit(), HALF);
        Vec3::new(x, y, 0)
    }

    fn defocus_disk_sample(&self, rng: &mut Rng) -> (p: Point3)
        ensures
            (p, final(rng).state) == spec_defocus_disk_sample(*self, old(rng).state),
    {
        let p: Vec3 = Vec3::random_in_unit_disk(rng);
        self.center.add(self.defocus_disk_u.scale(p.x)).add(self.defocus_disk_v.scale(p.y))
    }

    fn get_ray(&self, i: usize, j: usize, rng: &mut Rng) -> (r: Ray)
        requires
            i <= MAX_IMAGE_SIDE,
            j <= MAX_IMAGE_SIDE,
        ensures
            (r, final(rng).state) == spec_get_ray(*self, i as int, j as int, old(rng).state),
    {
        let offset: Vec3 = self.sample_square(rng);
        let pixel_sample: Point3 = self
            .pixel00_loc
            .add(self.pixel_delta_u.scale(fx_add((i as i64) * SCALE, offset.x)))
            .add(self.pixel_delta_v.scale(fx_add((j as i64) * SCALE, offset.y)));
        let ray_origin: Point3 = if self.defocus_angle <= 0 {
            self.center
        } else {
            self.defocus_disk_sample(rng)
        };
        let ray_direction: Vec3 = pixel_sample.sub(ray_origin);
        Ray::new(ray_origin, ray_direction)
    }

    /// The integrator. Black once the depth budget is spent; the background
    /// gradient on a miss; otherwise emission plus shadow-ray direct light
    /// plus the attenuated recursive bounce, with transparent scattering
    /// exempt from direct shading.
    pub fn ray_color(
        &self,
        r: &Ray,
        depth: usize,
        world: &HittableList,
        lights: &Vec<Light>,
        rng: &mut Rng,
    ) -> (res: Color)
        ensures
            (res, final(rng).state) == spec_ray_color(
                *r,
                depth as nat,
                world@,
                lights@,
                old(rng).state,
            ),
            depth == 0 ==> res == spec_black(),
            depth > 0 && world@.len() == 0 ==> res == spec_background(*r),
        decreases depth,
    {
        if depth == 0 {
            return Color::new(0, 0, 0);
        }
        let hit: Option<HitRecord> = world.hit(r, Interval::new(HIT_EPS, FMAX));
        match hit {
            None => {
                let unit_direction: Vec3 = r.direction.unit_vector();
                let a: i64 = fx_mul(HALF, fx_add(unit_direction.y, SCALE));
                Color::new(SCALE, SCALE, SCALE).scale(fx_sub(SCALE, a)).add(
                    Color::new(500_000, 700_000, SCALE).scale(a),
                )
            },
            Some(rec) => {
                let emission: Color = rec.mat.emission();
                let scat: Option<(Color, Ray)> = rec.mat.scatter(r, &rec, rng);
                match scat {
                    Some((attenuation, scattered)) => {
                        let is_transparent: bool = fx_abs(fx_sub(attenuation.r, SCALE)) < HIT_EPS
                            && fx_abs(fx_sub(attenuation.g, SCALE)) < HIT_EPS
                            && fx_abs(fx_sub(attenuation.b, SCALE)) < HIT_EPS
                            && fx_add(fx_add(emission.r, emission.g), emission.b) < HIT_EPS;
                        if is_transparent {
                            let indirect_light: Color = self.ray_color(
                                &scattered,
                                depth - 1,
                                world,
                                lights,
                                rng,
                            );
                            attenuation.mul(indirect_light)
                        } else {
                            let direct: Color = direct_light(world, lights, &rec);
                            let indirect_light: Color = self.ray_color(
                                &scattered,
                                depth - 1,
                                world,
                                lights,
                                rng,
                            );
                            emission.add(direct.mul(attenuation)).add(
                                attenuation.mul(indirect_light),
                            )
                        }
                    },
                    None => {
                        let direct: Color = direct_light_basic(world, lights, &rec);
                        emission.add(direct)
                    },
                }
            },
        }
    }

    /// One pixel's bytes, from the pixel's own seed; pixels are independent,
    /// so callers may evaluate them in any order.
    #[verifier::rlimit(100)]
    pub fn render_pixel(
        &self,
        world: &HittableList,
        lights: &Vec<Light>,
        i: usize,
        j: usize,
        seed: u64,
    ) -> (bytes: (u8, u8, u8))
        requires
            i <= MAX_IMAGE_SIDE,
            j <= MAX_IMAGE_SIDE,
            self.image_width <= MAX_IMAGE_SIDE,
        ensures
            bytes == spec_render_pixel(*self, world@, lights@, i as int, j as int, seed),
    {
        proof {
            reveal(spec_render_pixel);
            assert((j as int) * (self.image_width as int) <= 0x2386f26fc10000int)
                by (nonlinear_arith)
                requires
                    0 <= j as int <= 100_000_000int,
                    0 <= self.image_width as int <= 100_000_000int,
            ;
        }
        let k: u64 = (j as u64) * (self.image_width as u64) + (i as u64);
        let mut rng: Rng = Rng::new(seed.wrapping_add(k.wrapping_mul(crate::util::RNG_GAMMA)));
        let mut pixel_color: Color = Color::new(0, 0, 0);
        let mut sample: usize = 0;
        while sample < self.samples_per_pixel
            invariant
                sample <= self.samples_per_pixel,
                i <= MAX_IMAGE_SIDE,
                j <= MAX_IMAGE_SIDE,
                (pixel_color, rng.state) == spec_accumulate(
                    *self,
                    world@,
                    lights@,
                    i as int,
                    j as int,
                    spec_pixel_seed(seed, (j * self.image_width + i) as u64),
                    sample as nat,
                ),
            decreases self.samples_per_pixel - sample,
        {
            let r: Ray = self.get_ray(i, j, &mut rng);
            let c: Color = self.ray_color(&r, self.max_depth, world, lights, &mut rng);
            pixel_color = pixel_color.add(c);
            sample = sample + 1;
        }
        let avg: Color = pixel_color.scale(self.pixel_samples_scale);
        color_bytes(avg)
    }

    /// Render the whole raster in row-major order: the entry at index `k` is
    /// exactly `spec_render_pixel` for pixel `(k % width, k / width)`, so
    /// rendering twice from one seed yields identical output, and workers
    /// may fill the buffer in any order.
    #[verifier::rlimit(100)]
    pub fn render(
        &mut self,
        world: &HittableList,
        lights: &Vec<Light>,
        seed: u64,
    ) -> (pixels: Vec<(u8, u8, u8)>)
        requires
            old(self).image_width <= MAX_IMAGE_SIDE,
            spec_image_height(*old(self)) <= MAX_IMAGE_SIDE as int,
            spec_image_height(*old(self)) * old(self).image_width as int <= MAX_PIXELS as int,
            old(self).samples_per_pixel <= MAX_SAMPLES,
        ensures
            *final(self) == spec_initialized(*old(self)),
            pixels@.len() == spec_image_height(*old(self)) * old(self).image_width as int,
            forall|k: int|
                0 <= k < pixels@.len() ==> pixels@[k] == spec_render_pixel(
                    spec_initialized(*old(self)),
                    world@,
                    lights@,
                    k % old(self).image_width as int,
                    k / old(self).image_width as int,
                    seed,
                ),
    {
        self.initialize();
        let width: usize = self.image_width;
        let height: usize = self.image_height;
        proof {
            let h0 = spec_image_height(*old(self));
            let w0 = old(self).image_width as int;
            assert(height * width == h0 * w0) by (nonlinear_arith)
                requires
                    height as int == h0,
                    width as int == w0,
            ;
        }
        let total: usize = height * width;
        let mut pixels: Vec<(u8, u8, u8)> = Vec::new();
        let mut k: usize = 0;
        while k < total
            invariant
                k <= total,
                total == height * width,
                width == self.image_width,
                *self == spec_initialized(*old(self)),
                self.image_width <= MAX_IMAGE_SIDE,
                self.image_height <= MAX_IMAGE_SIDE,
                height == self.image_height,
                pixels@.len() == k,
                forall|m: int|
                    0 <= m < k as int ==> pixels@[m] == spec_render_pixel(
                        *self,
                        world@,
                        lights@,
                        m % width as int,
                        m / width as int,
                        seed,
                    ),
            decreases total - k,
        {
            proof {
                assert(width > 0 && (k as int) < (width as int) * (height as int))
                    by (nonlinear_arith)
                    requires
                        k < total,
                        total as int == (height as int) * (width as int),
                ;
                vstd::arithmetic::div_mod::lemma_multiply_divide_lt(
                    k as int,
                    width as int,
                    height as int,
                );
            }
            let i: usize = k % width;
            let j: usize = k / width;
            let bytes: (u8, u8, u8) = self.render_pixel(world, lights, i, j, seed);
            pixels.push(bytes);
            k = k + 1;
        }
        pixels
    }
}

} // verus!
