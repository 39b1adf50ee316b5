use rt::color::Color;
use rt::fx::SCALE;
use rt::hittable::HitRecord;
use rt::material::{Lambertian, Metal, Dialectric, Material};
use rt::ray::Ray;
use rt::util::Rng;
use rt::vec3::{Vec3, dot};

fn rec_at_origin_up(mat: Material) -> HitRecord {
    let mut rec = HitRecord::new(
        SCALE,
        Vec3::new(0, 0, 0),
        Vec3::new(0, SCALE, 0),
        mat,
    );
    // incoming from above and to the side: the raw normal already faces it
    rec.set_face_normal(&Ray::new(Vec3::new(-SCALE, SCALE, 0), Vec3::new(SCALE, -SCALE, 0)));
    rec
}

#[test]
fn test_lambertian_always_scatters() {
    let m = Lambertian::new(Color::new(800_000, 300_000, 300_000));
    let rec = rec_at_origin_up(Material::Lambertian(m));
    let r_in = Ray::new(Vec3::new(-SCALE, SCALE, 0), Vec3::new(SCALE, -SCALE, 0));
    let mut rng = Rng::new(1);
    for _ in 0..20 {
        let res = m.scatter(&r_in, &rec, &mut rng);
        let (attenuation, _scattered) = res.expect("a Lambertian always scatters");
        assert_eq!(attenuation, Color::new(800_000, 300_000, 300_000));
    }
}

#[test]
fn test_lambertian_emission_default_zero() {
    let m = Lambertian::new(Color::new(SCALE, SCALE, SCALE));
    assert_eq!(Material::Lambertian(m).emission(), Color::new(0, 0, 0));
    let glow = Lambertian::new_emissive(
        Color::new(SCALE, SCALE, SCALE),
        Color::new(600_000, 600_000, 600_000),
    );
    assert_eq!(
        Material::Lambertian(glow).emission(),
        Color::new(600_000, 600_000, 600_000)
    );
}

#[test]
fn test_metal_absorbs_when_reflection_dips_below_surface() {
    // fuzz 0: the scattered direction is exactly the reflection. A ray
    // arriving along the outward normal (from inside the surface) reflects
    // to the inside, so the metal absorbs it.
    let m = Metal::new(Color::new(900_000, 900_000, 900_000), 0);
    let rec = rec_at_origin_up(Material::Metal(m));
    let r_in = Ray::new(Vec3::new(0, -SCALE, 0), Vec3::new(0, SCALE, 0));
    let mut rng = Rng::new(2);
    assert!(m.scatter(&r_in, &rec, &mut rng).is_none());
}

#[test]
fn test_metal_scatters_above_surface() {
    let m = Metal::new(Color::new(900_000, 900_000, 900_000), 0);
    let rec = rec_at_origin_up(Material::Metal(m));
    let r_in = Ray::new(Vec3::new(-SCALE, SCALE, 0), Vec3::new(SCALE, -SCALE, 0));
    let mut rng = Rng::new(3);
    let (attenuation, scattered) = m
        .scatter(&r_in, &rec, &mut rng)
        .expect("the reflection points away from the surface");
    assert_eq!(attenuation, Color::new(900_000, 900_000, 900_000));
    assert!(dot(scattered.direction, rec.normal) > 0);
}

#[test]
fn test_metal_fuzz_clamped_into_unit_range() {
    let m = Metal::new(Color::new(SCALE, SCALE, SCALE), 5 * SCALE);
    assert_eq!(m.fuzz, SCALE);
    let m2 = Metal::new(Color::new(SCALE, SCALE, SCALE), 300_000);
    assert_eq!(m2.fuzz, 300_000);
    // a negative fuzz clamps up to zero
    let m3 = Metal::new(Color::new(SCALE, SCALE, SCALE), -SCALE);
    assert_eq!(m3.fuzz, 0);
}

#[test]
fn test_metal_mirror_scatters_grazing_front_face() {
    // a barely front-facing grazing ray (dot one grid unit below zero) still
    // scatters off a mirror: the absorption test sees the un-normalized
    // reflection, whose tilt away from the surface survives truncation here
    let m = Metal::new(Color::new(900_000, 900_000, 900_000), 0);
    let r_in = Ray::new(Vec3::new(-2 * SCALE, SCALE, 0), Vec3::new(2 * SCALE, -1, 0));
    let mut rec = HitRecord::new(
        SCALE,
        Vec3::new(0, 0, 0),
        Vec3::new(0, SCALE, 0),
        Material::Metal(m),
    );
    rec.set_face_normal(&r_in);
    assert!(rec.front_face);
    let mut rng = Rng::new(6);
    let (_, scattered) = m.scatter(&r_in, &rec, &mut rng).expect("the mirror reflects");
    assert!(dot(scattered.direction, rec.normal) > 0);
}

#[test]
fn test_dialectric_always_scatters_white() {
    let d = Dialectric::new(1_500_000);
    let rec = rec_at_origin_up(Material::Dialectric(d));
    let r_in = Ray::new(Vec3::new(-SCALE, SCALE, 0), Vec3::new(SCALE, -SCALE, 0));
    let (attenuation, _scattered) = d.scatter(&r_in, &rec).expect("a dielectric always scatters");
    assert_eq!(attenuation, Color::new(SCALE, SCALE, SCALE));
}

#[test]
fn test_refract_straight_through() {
    // head-on entry does not bend the ray at all
    let uv = Vec3::new(0, -SCALE, 0);
    let n = Vec3::new(0, SCALE, 0);
    assert_eq!(Vec3::refract(uv, n, 666_666), Vec3::new(0, -SCALE, 0));
}

#[test]
fn test_dialectric_total_internal_reflection() {
    // exiting glass at 45 degrees: 1.5 * sin(45deg) exceeds 1, so the ray
    // reflects instead of refracting
    let d = Dialectric::new(1_500_000);
    let mut rec = HitRecord::new(
        SCALE,
        Vec3::new(0, 0, 0),
        Vec3::new(0, -SCALE, 0),
        Material::Dialectric(d),
    );
    let r_in = Ray::new(Vec3::new(-SCALE, SCALE, 0), Vec3::new(707_106, -707_106, 0));
    rec.set_face_normal(&r_in);
    assert!(!rec.front_face);
    assert_eq!(rec.normal, Vec3::new(0, SCALE, 0));
    let (attenuation, scattered) = d.scatter(&r_in, &rec).expect("always scatters");
    assert_eq!(attenuation, Color::new(SCALE, SCALE, SCALE));
    assert_eq!(scattered.direction, Vec3::new(707_107, 707_107, 0));
}

#[test]
fn test_color_arithmetic() {
    let a = Color::new(200_000, 300_000, 400_000);
    let b = Color::new(SCALE, 500_000, 0);
    assert_eq!(a.add(b), Color::new(1_200_000, 800_000, 400_000));
    assert_eq!(a.mul(b), Color::new(200_000, 150_000, 0));
    assert_eq!(a.scale(2 * SCALE), Color::new(400_000, 600_000, 800_000));
    let mut acc = Color::new(0, 0, 0);
    acc.add_assign(a);
    acc.add_assign(a);
    assert_eq!(acc, Color::new(400_000, 600_000, 800_000));
}

#[test]
fn test_color_from_vec3() {
    let c = Color::from(Vec3::new(1, 2, 3));
    assert_eq!(c, Color::new(1, 2, 3));
}

#[test]
fn test_color_bytes_quantization() {
    // black stays black
    assert_eq!(rt::color::color_bytes(Color::new(0, 0, 0)), (0, 0, 0));
    // full white: gamma 1.0, clamped to 0.999, 256 * 0.999 truncates to 255
    assert_eq!(
        rt::color::color_bytes(Color::new(SCALE, SCALE, SCALE)),
        (255, 255, 255)
    );
    // 0.25 gamma-corrects to 0.5, and 256 * 0.5 == 128
    assert_eq!(rt::color::color_bytes(Color::new(250_000, 0, 0)).0, 128);
    // negative channels clamp to zero
    assert_eq!(rt::color::color_bytes(Color::new(-SCALE, 0, 0)).0, 0);
    // anything at or above one clamps to 255
    assert_eq!(rt::color::color_bytes(Color::new(9 * SCALE, 0, 0)).0, 255);
}

#[test]
fn test_color_random_deterministic_in_range() {
    let mut a = Rng::new(13);
    let mut b = Rng::new(13);
    let c1 = Color::random(&mut a);
    let c2 = Color::random(&mut b);
    assert_eq!(c1, c2);
    for ch in [c1.r, c1.g, c1.b] {
        assert!((0..SCALE).contains(&ch));
    }
}

#[test]
fn test_color_random_range_bounds() {
    let mut rng = Rng::new(11);
    for _ in 0..20 {
        let c = Color::random_range(&mut rng, 200_000, 700_000);
        for ch in [c.r, c.g, c.b] {
            assert!((200_000..700_000).contains(&ch), "channel {ch}");
        }
    }
}
