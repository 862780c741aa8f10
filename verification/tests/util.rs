use yarr::math::Vector;
use yarr::util::{gamma_to_linear, linear_to_gamma, random_in_range, sphere_uv};

type Vec3 = Vector<f64, 3>;
type Vec2 = Vector<f64, 2>;

fn uv(x: f64, y: f64, z: f64) -> Vec2 {
    sphere_uv(&Vec3::new(x, y, z), &f64::acos, &f64::atan2, std::f64::consts::PI)
}

#[test]
fn util_test_random_in_range() {
    for random in [0.0, 0.25, 0.5, 0.999999] {
        let x = random_in_range(-10.0, 10.0, random);
        assert!(-10.0 <= x && x < 10.0);
    }
    assert_eq!(random_in_range(-10.0, 10.0, 0.0), -10.0);
    assert_eq!(random_in_range(-10.0, 10.0, 0.75), 5.0);
    assert_eq!(random_in_range(2.0, 4.0, 0.5), 3.0);
}

#[test]
fn test_linear_to_gamma() {
    assert_eq!(linear_to_gamma(0.0, &f64::sqrt), 0.0);
    assert_eq!(linear_to_gamma(-1.0, &f64::sqrt), 0.0);
    assert!((linear_to_gamma(0.25, &f64::sqrt) - 0.5).abs() < 1e-8);
}

#[test]
fn test_gamma_to_linear() {
    assert_eq!(gamma_to_linear(0.0, 2.2, &f64::powf), 0.0);
    assert_eq!(gamma_to_linear(-1.0, 2.2, &f64::powf), 0.0);
    assert!((gamma_to_linear(0.5, 2.2, &f64::powf) - 0.217637640824031).abs() < 1e-8);
    assert!((gamma_to_linear(0.5, 2.0, &f64::powf) - 0.25).abs() < 1e-8);
}

#[test]
fn sphere_uv_of_the_six_axes() {
    assert!(uv(1.0, 0.0, 0.0).approx_eq(&Vec2::new(0.5, 0.5)));
    assert!(uv(0.0, 1.0, 0.0).approx_eq(&Vec2::new(0.5, 1.0)));
    assert!(uv(0.0, 0.0, 1.0).approx_eq(&Vec2::new(0.25, 0.5)));
    assert!(uv(-1.0, 0.0, 0.0).approx_eq(&Vec2::new(0.0, 0.5)));
    assert!(uv(0.0, -1.0, 0.0).approx_eq(&Vec2::new(0.5, 0.0)));
    assert!(uv(0.0, 0.0, -1.0).approx_eq(&Vec2::new(0.75, 0.5)));
}

#[test]
fn test_to_pixel() {
    let c = Vec3::new(0.1, 0.2, 0.3);
    assert_eq!(c.to_pixel(&f64::sqrt, &|x: f64| x as u8), (80, 114, 140));
}

#[test]
fn to_pixel_clamps() {
    let byte = |x: f64| x as u8;
    assert_eq!(Vec3::new(-1.0, 0.0, 1.0).to_pixel(&f64::sqrt, &byte), (0, 0, 255));
    assert_eq!(Vec3::new(4.0, 1e9, 0.25).to_pixel(&f64::sqrt, &byte), (255, 255, 128));
    assert_eq!(Vec3::new(f64::NAN, 1.0, 1.0).to_pixel(&f64::sqrt, &byte).0, 0);
}

#[test]
fn encoding_is_monotone() {
    let byte = |x: f64| x as u8;
    let mut last = 0u8;
    for k in 0..=2000 {
        let c = -0.5 + k as f64 / 1000.0;
        let b = Vec3::new(c, c, c).to_pixel(&f64::sqrt, &byte).0;
        assert!(b >= last);
        last = b;
    }
    assert_eq!(last, 255);
}
