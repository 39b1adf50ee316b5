use rt::color::Color;
use rt::cube::Cube;
use rt::cylinder::Cylinder;
use rt::fx::{SCALE, FMAX};
use rt::hittable_list::{HittableList, Primitive};
use rt::interval::Interval;
use rt::material::{Lambertian, Material};
use rt::plane::Plane;
use rt::ray::Ray;
use rt::sphere::Sphere;
use rt::vec3::{Vec3, dot};

fn gray() -> Material {
    Material::Lambertian(Lambertian::new(Color::new(500_000, 500_000, 500_000)))
}

fn full() -> Interval {
    Interval::new(1_000, FMAX)
}

#[test]
fn test_interval_surrounds_is_strict() {
    let i = Interval::new(0, 10);
    assert!(i.surrounds(5));
    assert!(!i.surrounds(0));
    assert!(!i.surrounds(10));
    assert!(i.contains(0));
    assert!(i.contains(10));
    assert_eq!(i.clamp(-3), 0);
    assert_eq!(i.clamp(12), 10);
}

#[test]
fn test_ray_at() {
    let r = Ray::new(Vec3::new(SCALE, 0, 0), Vec3::new(0, 2 * SCALE, 0));
    assert_eq!(r.at(500_000), Vec3::new(SCALE, SCALE, 0));
}

#[test]
fn test_sphere_hit_head_on() {
    let s = Sphere::new(Vec3::new(0, 0, 0), SCALE, gray());
    let r = Ray::new(Vec3::new(0, 0, -3 * SCALE), Vec3::new(0, 0, SCALE));
    let rec = s.hit(&r, full()).expect("must hit");
    assert_eq!(rec.t, 2 * SCALE);
    assert_eq!(rec.p, Vec3::new(0, 0, -SCALE));
    assert_eq!(rec.normal, Vec3::new(0, 0, -SCALE));
    assert!(rec.front_face);
    // the oriented normal faces against the incoming ray
    assert!(dot(rec.normal, r.direction) <= 0);
}

#[test]
fn test_sphere_hit_from_inside_flips_normal() {
    let s = Sphere::new(Vec3::new(0, 0, 0), SCALE, gray());
    let r = Ray::new(Vec3::new(0, 0, 0), Vec3::new(0, 0, SCALE));
    let rec = s.hit(&r, full()).expect("must hit");
    assert_eq!(rec.t, SCALE);
    assert!(!rec.front_face);
    assert_eq!(rec.normal, Vec3::new(0, 0, -SCALE));
    assert!(dot(rec.normal, r.direction) <= 0);
}

#[test]
fn test_sphere_miss() {
    let s = Sphere::new(Vec3::new(0, 0, 0), SCALE, gray());
    let r = Ray::new(Vec3::new(0, 3 * SCALE, -3 * SCALE), Vec3::new(0, 0, SCALE));
    assert!(s.hit(&r, full()).is_none());
    // hit exists but lies beyond the interval
    let near = Ray::new(Vec3::new(0, 0, -3 * SCALE), Vec3::new(0, 0, SCALE));
    assert!(s.hit(&near, Interval::new(1_000, SCALE)).is_none());
}

#[test]
fn test_plane_hit_and_parallel_miss() {
    let pl = Plane::new(Vec3::new(0, 0, 0), Vec3::new(0, 2 * SCALE, 0), gray());
    // the stored normal is normalized
    assert_eq!(pl.normal, Vec3::new(0, SCALE, 0));
    let r = Ray::new(Vec3::new(0, SCALE, 0), Vec3::new(0, -SCALE, 0));
    let rec = pl.hit(&r, full()).expect("must hit");
    assert_eq!(rec.t, SCALE);
    assert_eq!(rec.p, Vec3::new(0, 0, 0));
    assert!(dot(rec.normal, r.direction) <= 0);
    // a ray parallel to the plane misses
    let par = Ray::new(Vec3::new(0, SCALE, 0), Vec3::new(SCALE, 0, 0));
    assert!(pl.hit(&par, full()).is_none());
}

#[test]
fn test_cube_six_face_normals() {
    let c = Cube::new(
        Vec3::new(-SCALE, -SCALE, -SCALE),
        Vec3::new(SCALE, SCALE, SCALE),
        gray(),
    );
    let cases = [
        (Vec3::new(3 * SCALE, 0, 0), Vec3::new(-SCALE, 0, 0), Vec3::new(SCALE, 0, 0)),
        (Vec3::new(-3 * SCALE, 0, 0), Vec3::new(SCALE, 0, 0), Vec3::new(-SCALE, 0, 0)),
        (Vec3::new(0, 3 * SCALE, 0), Vec3::new(0, -SCALE, 0), Vec3::new(0, SCALE, 0)),
        (Vec3::new(0, -3 * SCALE, 0), Vec3::new(0, SCALE, 0), Vec3::new(0, -SCALE, 0)),
        (Vec3::new(0, 0, 3 * SCALE), Vec3::new(0, 0, -SCALE), Vec3::new(0, 0, SCALE)),
        (Vec3::new(0, 0, -3 * SCALE), Vec3::new(0, 0, SCALE), Vec3::new(0, 0, -SCALE)),
    ];
    for (origin, direction, expected_normal) in cases {
        let r = Ray::new(origin, direction);
        let rec = c.hit(&r, full()).expect("must hit");
        assert_eq!(rec.t, 2 * SCALE);
        assert_eq!(rec.normal, expected_normal);
        assert!(rec.front_face);
        assert!(dot(rec.normal, r.direction) <= 0);
    }
}

#[test]
fn test_cube_hit_point_within_bounds() {
    // a skewed ray into the box: the hit point stays within the bounds, up
    // to the proved tolerance of one direction component per unit
    let c = Cube::new(
        Vec3::new(-SCALE, -SCALE, -SCALE),
        Vec3::new(SCALE, SCALE, SCALE),
        gray(),
    );
    let r = Ray::new(
        Vec3::new(3 * SCALE, 500_000, -250_000),
        Vec3::new(-SCALE, 111_111, 77_777),
    );
    let rec = c.hit(&r, full()).expect("must hit");
    for (p, d, lo, hi) in [
        (rec.p.x, r.direction.x, c.min.x, c.max.x),
        (rec.p.y, r.direction.y, c.min.y, c.max.y),
        (rec.p.z, r.direction.z, c.min.z, c.max.z),
    ] {
        let eps = d.abs() / SCALE + 2;
        assert!(lo - eps <= p && p <= hi + eps, "component {p} outside [{lo}, {hi}]");
    }
}

#[test]
fn test_cube_zero_direction_component() {
    let c = Cube::new(
        Vec3::new(-SCALE, -SCALE, -SCALE),
        Vec3::new(SCALE, SCALE, SCALE),
        gray(),
    );
    // origin outside the y slab, direction parallel to it: miss
    let r = Ray::new(Vec3::new(3 * SCALE, 2 * SCALE, 0), Vec3::new(-SCALE, 0, 0));
    assert!(c.hit(&r, full()).is_none());
}

#[test]
fn test_cylinder_hit_side_and_miss_ends() {
    let cy = Cylinder::new(Vec3::new(0, 0, 0), SCALE, 2 * SCALE, gray());
    let r = Ray::new(Vec3::new(-3 * SCALE, 0, 0), Vec3::new(SCALE, 0, 0));
    let rec = cy.hit(&r, full()).expect("must hit the side");
    assert_eq!(rec.t, 2 * SCALE);
    assert_eq!(rec.normal, Vec3::new(-SCALE, 0, 0));
    assert!(dot(rec.normal, r.direction) <= 0);
    // above the height span: the side surface is missed
    let high = Ray::new(Vec3::new(-3 * SCALE, 2 * SCALE, 0), Vec3::new(SCALE, 0, 0));
    assert!(cy.hit(&high, full()).is_none());
    // parallel to the axis: no lateral intersection (the ends are open)
    let axial = Ray::new(Vec3::new(0, -5 * SCALE, 0), Vec3::new(0, SCALE, 0));
    assert!(cy.hit(&axial, full()).is_none());
}

#[test]
fn test_plane_hit_point_satisfies_plane_equation() {
    // a skewed ray onto a tilted plane: the hit point's residual against the
    // plane equation stays within the proved tolerance
    let pl = Plane::new(Vec3::new(0, 0, 0), Vec3::new(SCALE, SCALE, 0), gray());
    let r = Ray::new(
        Vec3::new(-2 * SCALE, SCALE, 300_000),
        Vec3::new(900_000, -350_000, 123_456),
    );
    let rec = pl.hit(&r, full()).expect("must hit");
    let residual = dot(rec.p.sub(pl.point), pl.normal);
    let denom = dot(pl.normal, r.direction);
    assert!(residual.abs() * SCALE < denom.abs() + 3 * rec.t + 10 * SCALE);
}

#[test]
fn test_scene_returns_globally_nearest_hit() {
    // two overlapping spheres along the ray: the reported t is the minimum
    // of the individual ts, in either insertion order
    let near = Sphere::new(Vec3::new(0, 0, 0), SCALE, gray());
    let far = Sphere::new(Vec3::new(0, 0, SCALE), SCALE, gray());
    let r = Ray::new(Vec3::new(0, 0, -3 * SCALE), Vec3::new(0, 0, SCALE));
    let t_near = near.hit(&r, full()).expect("near hits").t;
    let t_far = far.hit(&r, full()).expect("far hits").t;
    assert_eq!(t_near, 2 * SCALE);
    assert_eq!(t_far, 3 * SCALE);

    let mut world = HittableList::new();
    world.add(Primitive::Sphere(near));
    world.add(Primitive::Sphere(far));
    let rec = world.hit(&r, full()).expect("scene hits");
    assert_eq!(rec.t, t_near.min(t_far));

    let mut reversed = HittableList::new();
    reversed.add(Primitive::Sphere(far));
    reversed.add(Primitive::Sphere(near));
    let rec2 = reversed.hit(&r, full()).expect("scene hits");
    assert_eq!(rec2.t, t_near.min(t_far));
}

#[test]
fn test_empty_scene_misses() {
    let world = HittableList::new();
    let r = Ray::new(Vec3::new(0, 0, 0), Vec3::new(0, 0, SCALE));
    assert!(world.hit(&r, full()).is_none());
}

#[test]
fn test_cube_from_center_size() {
    let c = Cube::from_center_size(Vec3::new(0, SCALE, 0), 2 * SCALE, gray());
    assert_eq!(c.min, Vec3::new(-SCALE, 0, -SCALE));
    assert_eq!(c.max, Vec3::new(SCALE, 2 * SCALE, SCALE));
}
