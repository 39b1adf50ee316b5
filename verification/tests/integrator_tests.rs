use rt::camera::Camera;
use rt::color::Color;
use rt::fx::SCALE;
use rt::hittable_list::{HittableList, Primitive};
use rt::light::Light;
use rt::material::{Lambertian, Material};
use rt::plane::Plane;
use rt::ray::Ray;
use rt::sphere::Sphere;
use rt::util::Rng;
use rt::vec3::Vec3;

fn one_sphere_world() -> HittableList {
    let mut world = HittableList::new();
    world.add(Primitive::Sphere(Sphere::new(
        Vec3::new(0, 0, 0),
        SCALE,
        Material::Lambertian(Lambertian::new(Color::new(500_000, 500_000, 500_000))),
    )));
    world
}

#[test]
fn test_ray_color_depth_zero_is_black() {
    let cam = Camera::new();
    let world = one_sphere_world();
    let lights = vec![Light::new(Vec3::new(0, 5 * SCALE, 0), Color::new(SCALE, SCALE, SCALE), SCALE)];
    let r = Ray::new(Vec3::new(0, 0, -3 * SCALE), Vec3::new(0, 0, SCALE));
    let mut rng = Rng::new(4);
    assert_eq!(cam.ray_color(&r, 0, &world, &lights, &mut rng), Color::new(0, 0, 0));
}

#[test]
fn test_ray_color_empty_scene_up_is_sky_blue() {
    let cam = Camera::new();
    let world = HittableList::new();
    let lights: Vec<Light> = vec![];
    let r = Ray::new(Vec3::new(0, 0, 0), Vec3::new(0, SCALE, 0));
    let mut rng = Rng::new(4);
    let c = cam.ray_color(&r, 10, &world, &lights, &mut rng);
    assert_eq!(c, Color::new(500_000, 700_000, SCALE));
}

#[test]
fn test_ray_color_empty_scene_down_is_white() {
    let cam = Camera::new();
    let world = HittableList::new();
    let lights: Vec<Light> = vec![];
    let r = Ray::new(Vec3::new(0, 0, 0), Vec3::new(0, -SCALE, 0));
    let mut rng = Rng::new(4);
    let c = cam.ray_color(&r, 10, &world, &lights, &mut rng);
    assert_eq!(c, Color::new(SCALE, SCALE, SCALE));
}

#[test]
fn test_glowing_blocker_lightens_its_shadow() {
    // a downward ray hits the gray floor; the only light sits straight
    // above, behind a blocking sphere
    let floor = Material::Lambertian(Lambertian::new(Color::new(800_000, 800_000, 800_000)));
    let blocker_albedo = Color::new(500_000, 500_000, 500_000);
    let lights = vec![Light::new(Vec3::new(0, 5 * SCALE, 0), Color::new(SCALE, SCALE, SCALE), SCALE)];
    let r = Ray::new(Vec3::new(0, SCALE, 0), Vec3::new(0, -SCALE, 0));

    let build = |blocker_mat: Material| {
        let mut world = HittableList::new();
        world.add(Primitive::Plane(Plane::new(
            Vec3::new(0, 0, 0),
            Vec3::new(0, SCALE, 0),
            floor,
        )));
        world.add(Primitive::Sphere(Sphere::new(
            Vec3::new(0, 2_500_000, 0),
            500_000,
            blocker_mat,
        )));
        world
    };

    // an emissive blocker above the 0.05 mean-emission threshold adds 0.15
    // of its emission to the shadowed point: 0.15 * 0.6 = 0.09, attenuated
    // by the floor's 0.8 albedo = 0.072; depth 1 leaves no indirect light
    let glowing = build(Material::Lambertian(Lambertian::new_emissive(
        blocker_albedo,
        Color::new(600_000, 600_000, 600_000),
    )));
    let cam = Camera::new();
    let mut rng = Rng::new(8);
    let lit = cam.ray_color(&r, 1, &glowing, &lights, &mut rng);
    assert_eq!(lit, Color::new(72_000, 72_000, 72_000));

    // a dark blocker below the threshold leaves the shadow black
    let dark = build(Material::Lambertian(Lambertian::new(blocker_albedo)));
    let mut rng2 = Rng::new(8);
    let shadowed = cam.ray_color(&r, 1, &dark, &lights, &mut rng2);
    assert_eq!(shadowed, Color::new(0, 0, 0));
}

#[test]
fn test_absorbed_ray_gets_plain_direct_light() {
    // a grazing ray onto a very rough metal floor absorbs for some seeds and
    // scatters for others; an absorbed ray falls back to plain occlusion-
    // tested direct light with no attenuation, a scattered one (at depth 1)
    // returns the attenuated direct light
    let metal = rt::material::Metal::new(Color::new(500_000, 500_000, 500_000), SCALE);
    let mut world = HittableList::new();
    world.add(Primitive::Plane(rt::plane::Plane::new(
        Vec3::new(0, 0, 0),
        Vec3::new(0, SCALE, 0),
        rt::material::Material::Metal(metal),
    )));
    let lights = vec![Light::new(Vec3::new(0, 5 * SCALE, 0), Color::new(SCALE, SCALE, SCALE), SCALE)];
    let r = Ray::new(Vec3::new(0, 2_000, 0), Vec3::new(SCALE, -1_000, 0));
    // the hit point and its cosine toward the light, recomputed here
    let offset = Vec3::new(2 * SCALE, 1_000, 0);
    let v = lights[0].position.sub(offset).unit_vector().y;
    let absorbed = Color::new(v, v, v);
    let half_v = rt::fx::fx_mul(v, 500_000);
    let scattered = Color::new(half_v, half_v, half_v);
    let cam = Camera::new();
    let mut saw_absorbed = false;
    let mut saw_scattered = false;
    for seed in 0..64u64 {
        let mut rng = Rng::new(seed);
        let c = cam.ray_color(&r, 1, &world, &lights, &mut rng);
        if c == absorbed {
            saw_absorbed = true;
        } else if c == scattered {
            saw_scattered = true;
        } else {
            panic!("unexpected radiance {:?}", c);
        }
    }
    assert!(saw_absorbed);
    assert!(saw_scattered);
}

#[test]
fn test_unoccluded_light_contributes_cosine_weighted() {
    // the same floor without the blocker: the overhead light is unoccluded,
    // cos(theta) is exactly 1, so direct light is the light color times its
    // intensity, attenuated by the floor's albedo: 0.8 per channel
    let floor = Material::Lambertian(Lambertian::new(Color::new(800_000, 800_000, 800_000)));
    let mut world = HittableList::new();
    world.add(Primitive::Plane(Plane::new(
        Vec3::new(0, 0, 0),
        Vec3::new(0, SCALE, 0),
        floor,
    )));
    let lights = vec![Light::new(Vec3::new(0, 5 * SCALE, 0), Color::new(SCALE, SCALE, SCALE), SCALE)];
    let r = Ray::new(Vec3::new(0, SCALE, 0), Vec3::new(0, -SCALE, 0));
    let cam = Camera::new();
    let mut rng = Rng::new(8);
    let c = cam.ray_color(&r, 1, &world, &lights, &mut rng);
    assert_eq!(c, Color::new(800_000, 800_000, 800_000));
}
