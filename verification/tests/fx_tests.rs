use rt::fx::{fx_add, fx_sub, fx_mul, fx_div, fx_sqrt, fx_abs, fx_clamp, SCALE, FMAX};
use rt::trig::{deg_to_rad, tan_fx};
use rt::util::Rng;

#[test]
fn test_fx_mul_exact() {
    // 0.5 * 0.5 == 0.25
    assert_eq!(fx_mul(500_000, 500_000), 250_000);
    // 2 * 3 == 6
    assert_eq!(fx_mul(2 * SCALE, 3 * SCALE), 6 * SCALE);
    // signs
    assert_eq!(fx_mul(-2 * SCALE, 3 * SCALE), -6 * SCALE);
}

#[test]
fn test_fx_mul_truncates_toward_zero() {
    // (-1e-6) * (1e-6) is -1e-12: under the grid, truncated toward zero.
    assert_eq!(fx_mul(-1, 1), 0);
    assert_eq!(fx_mul(1, 1), 0);
}

#[test]
fn test_fx_div_exact() {
    assert_eq!(fx_div(SCALE, 2 * SCALE), 500_000);
    assert_eq!(fx_div(-SCALE, 2 * SCALE), -500_000);
    // division by zero is guarded: the result is zero
    assert_eq!(fx_div(123, 0), 0);
    // a millionth divided by three truncates to zero
    assert_eq!(fx_div(1, 3 * SCALE), 0);
}

#[test]
fn test_fx_saturation() {
    assert_eq!(fx_add(FMAX, FMAX), FMAX);
    assert_eq!(fx_sub(-FMAX, FMAX), -FMAX);
    assert_eq!(fx_mul(FMAX, FMAX), FMAX);
}

#[test]
fn test_fx_sqrt_exact() {
    assert_eq!(fx_sqrt(4 * SCALE), 2 * SCALE);
    assert_eq!(fx_sqrt(SCALE), SCALE);
    assert_eq!(fx_sqrt(0), 0);
    assert_eq!(fx_sqrt(-5), 0);
    // sqrt(2) to the grid
    assert_eq!(fx_sqrt(2 * SCALE), 1_414_213);
}

#[test]
fn test_fx_abs_clamp() {
    assert_eq!(fx_abs(-7), 7);
    assert_eq!(fx_clamp(5, 0, 3), 3);
    assert_eq!(fx_clamp(-5, 0, 3), 0);
    assert_eq!(fx_clamp(2, 0, 3), 2);
}

#[test]
fn test_tan_of_45_degrees_close_to_one() {
    let t = tan_fx(deg_to_rad(45 * SCALE));
    assert!(t >= SCALE - 1_000 && t <= SCALE + 1_000, "tan(45deg) = {t}");
}

#[test]
fn test_deg_to_rad_180_is_pi() {
    assert_eq!(deg_to_rad(180 * SCALE), rt::trig::PI_FX);
}

#[test]
fn test_rng_deterministic_streams() {
    let mut a = Rng::new(42);
    let mut b = Rng::new(42);
    for _ in 0..16 {
        assert_eq!(a.next_u64(), b.next_u64());
    }
    let mut c = Rng::new(43);
    let mut d = Rng::new(42);
    assert_ne!(c.next_u64(), d.next_u64());
}

#[test]
fn test_rand_unit_in_range() {
    let mut rng = Rng::new(5);
    for _ in 0..100 {
        let u = rng.rand_unit();
        assert!((0..SCALE).contains(&u));
    }
}

#[test]
fn test_random_f64_matches_rand_unit() {
    let mut a = Rng::new(21);
    let mut b = Rng::new(21);
    for _ in 0..8 {
        assert_eq!(rt::util::random_f64(&mut a), b.rand_unit());
    }
}
