use rt::fx::SCALE;
use rt::vec3::{Vec3, dot};

#[test]
fn test_add() {
    let v = Vec3::new(1 * SCALE, 2 * SCALE, 3 * SCALE);
    let w = Vec3::new(4 * SCALE, 5 * SCALE, 6 * SCALE);
    assert_eq!(v.add(w), Vec3::new(5 * SCALE, 7 * SCALE, 9 * SCALE));
}

#[test]
fn test_f64mul() {
    let v = Vec3::new(1 * SCALE, 2 * SCALE, 3 * SCALE);
    assert_eq!(v.scale(10 * SCALE), Vec3::new(10 * SCALE, 20 * SCALE, 30 * SCALE));
}

#[test]
fn test_sub_neg() {
    let v = Vec3::new(5 * SCALE, 0, -3 * SCALE);
    let w = Vec3::new(SCALE, SCALE, SCALE);
    assert_eq!(v.sub(w), Vec3::new(4 * SCALE, -SCALE, -4 * SCALE));
    assert_eq!(v.neg(), Vec3::new(-5 * SCALE, 0, 3 * SCALE));
}

#[test]
fn test_dot_and_length() {
    let x = Vec3::new(SCALE, 0, 0);
    assert_eq!(dot(x, x), SCALE);
    assert_eq!(x.length_squared(), SCALE);
    assert_eq!(x.length(), SCALE);
    let v = Vec3::new(3 * SCALE, 4 * SCALE, 0);
    assert_eq!(v.length_squared(), 25 * SCALE);
    assert_eq!(v.length(), 5 * SCALE);
}

#[test]
fn test_cross() {
    let x = Vec3::new(SCALE, 0, 0);
    let y = Vec3::new(0, SCALE, 0);
    assert_eq!(Vec3::cross(x, y), Vec3::new(0, 0, SCALE));
    assert_eq!(Vec3::cross(y, x), Vec3::new(0, 0, -SCALE));
}

#[test]
fn test_unit_vector_exact_axis() {
    let v = Vec3::new(0, 2 * SCALE, 0);
    assert_eq!(v.unit_vector(), Vec3::new(0, SCALE, 0));
}

#[test]
fn test_unit_vector_zero_is_zero() {
    // Normalizing a zero-length vector is guarded: it stays zero instead of
    // dividing by zero.
    assert_eq!(Vec3::zero().unit_vector(), Vec3::zero());
}

#[test]
fn test_unit_vector_near_unit_length() {
    let v = Vec3::new(3 * SCALE, -7 * SCALE, 2 * SCALE);
    let u = v.unit_vector();
    let lsq = u.length_squared();
    assert!(lsq >= SCALE - 10, "squared length {lsq} too small");
    assert!(lsq <= SCALE + 10, "squared length {lsq} too large");
}

#[test]
fn test_near_zero() {
    assert!(Vec3::zero().near_zero());
    assert!(!Vec3::new(1, 0, 0).near_zero());
}

#[test]
fn test_reflect() {
    // Incoming at 45 degrees onto the floor bounces up at 45 degrees.
    let v = Vec3::new(SCALE, -SCALE, 0);
    let n = Vec3::new(0, SCALE, 0);
    assert_eq!(Vec3::reflect(v, n), Vec3::new(SCALE, SCALE, 0));
}

#[test]
fn test_random_unit_vector_deterministic_and_near_unit() {
    let mut rng1 = rt::util::Rng::new(7);
    let mut rng2 = rt::util::Rng::new(7);
    let a = Vec3::random_unit_vector(&mut rng1);
    let b = Vec3::random_unit_vector(&mut rng2);
    assert_eq!(a, b);
    let lsq = a.length_squared();
    assert!(lsq >= SCALE - 5000 && lsq <= SCALE + 5000, "squared length {lsq}");
}

#[test]
fn test_random_in_unit_disk_in_disk() {
    let mut rng = rt::util::Rng::new(99);
    for _ in 0..10 {
        let p = Vec3::random_in_unit_disk(&mut rng);
        assert!(p.length_squared() < SCALE);
        assert_eq!(p.z, 0);
    }
}
