use rt::camera::Camera;
use rt::color::Color;
use rt::fx::SCALE;
use rt::hittable_list::{HittableList, Primitive};
use rt::light::Light;
use rt::material::{Lambertian, Material};
use rt::sphere::Sphere;
use rt::vec3::Vec3;

fn lit_sphere_scene() -> (HittableList, Vec<Light>) {
    let mut world = HittableList::new();
    world.add(Primitive::Sphere(Sphere::new(
        Vec3::new(0, 0, 0),
        SCALE,
        Material::Lambertian(Lambertian::new(Color::new(800_000, 300_000, 300_000))),
    )));
    let lights = vec![Light::new(
        Vec3::new(0, 5 * SCALE, 0),
        Color::new(SCALE, SCALE, SCALE),
        SCALE,
    )];
    (world, lights)
}

fn overhead_camera() -> Camera {
    let mut cam = Camera::new();
    cam.aspect_ratio = SCALE;
    cam.image_width = 8;
    cam.samples_per_pixel = 2;
    cam.max_depth = 1;
    cam.vfov = 40 * SCALE;
    cam.lookfrom = Vec3::new(0, 3 * SCALE, 0);
    cam.lookat = Vec3::new(0, 0, 0);
    cam.vup = Vec3::new(0, 0, SCALE);
    cam.defocus_angle = 0;
    cam.focus_dist = 3 * SCALE;
    cam
}

#[test]
fn test_single_sphere_overhead_light_renders() {
    // one Lambertian sphere at the origin, one overhead point light, the
    // camera looking straight down, no depth of field, depth budget 1
    let (world, lights) = lit_sphere_scene();
    let mut cam = overhead_camera();
    let pixels = cam.render(&world, &lights, 1234);
    assert_eq!(pixels.len(), 64);
    // the image is not uniform: sphere pixels differ from background pixels
    let first = pixels[0];
    assert!(pixels.iter().any(|&p| p != first));
    // the center looks at the lit top of the sphere and is not black
    let center = pixels[4 * 8 + 4];
    assert!(center.0 > 0 || center.1 > 0 || center.2 > 0);
}

#[test]
fn test_render_deterministic_under_fixed_seed() {
    let (world, lights) = lit_sphere_scene();
    let mut cam1 = overhead_camera();
    let mut cam2 = overhead_camera();
    let a = cam1.render(&world, &lights, 77);
    let b = cam2.render(&world, &lights, 77);
    assert_eq!(a, b);
    let mut cam3 = overhead_camera();
    let c = cam3.render(&world, &lights, 78);
    assert_ne!(a, c);
}

#[test]
fn test_render_pixel_matches_render() {
    // pixels are independent: evaluating one by itself gives the same bytes
    // as the corresponding entry of the full raster
    let (world, lights) = lit_sphere_scene();
    let mut cam = overhead_camera();
    let pixels = cam.render(&world, &lights, 99);
    for (i, j) in [(0usize, 0usize), (3, 2), (7, 7)] {
        let alone = cam.render_pixel(&world, &lights, i, j, 99);
        assert_eq!(alone, pixels[j * 8 + i]);
    }
}

#[test]
fn test_single_sample_render_consistent() {
    // one sample per pixel runs the same code path as many
    let (world, lights) = lit_sphere_scene();
    let mut cam = overhead_camera();
    cam.samples_per_pixel = 1;
    let once = cam.render(&world, &lights, 5);
    assert_eq!(once.len(), 64);
    let mut cam_many = overhead_camera();
    cam_many.samples_per_pixel = 8;
    let many = cam_many.render(&world, &lights, 5);
    assert_eq!(many.len(), 64);
}

#[test]
fn test_initialize_derives_height_and_basis() {
    let mut cam = overhead_camera();
    cam.aspect_ratio = 2 * SCALE;
    cam.image_width = 10;
    cam.initialize();
    assert_eq!(cam.image_height, 5);
    // the basis is orthogonal-ish: w points from lookat to lookfrom
    assert_eq!(cam.w, Vec3::new(0, SCALE, 0));
    assert_eq!(cam.center, Vec3::new(0, 3 * SCALE, 0));
    // 1 / samples_per_pixel
    assert_eq!(cam.pixel_samples_scale, 500_000);
}

#[test]
fn test_initialize_height_is_at_least_one() {
    let mut cam = Camera::new();
    cam.image_width = 1;
    cam.aspect_ratio = 100 * SCALE;
    cam.initialize();
    assert_eq!(cam.image_height, 1);
}
