use yarr::camera::Camera;
use yarr::interval::Interval;
use yarr::math::Vector;
use yarr::ray::Ray;
use yarr::sphere::Sphere;
use yarr::util::sphere_uv;

type Vec3 = Vector<f64, 3>;
type Vec2 = Vector<f64, 2>;

fn vec3(x: f64, y: f64, z: f64) -> Vec3 {
    Vec3::new(x, y, z)
}

fn uv(n: &Vec3) -> Vec2 {
    sphere_uv(n, &f64::acos, &f64::atan2, std::f64::consts::PI)
}

fn ahead() -> Interval<f64> {
    Interval::from(0.001)
}

#[test]
fn a_ray_at_the_centre_hits_the_near_side() {
    let s = Sphere::stationary(vec3(0.0, 0.0, 0.0), 1.0, 7u32);
    let r = Ray::new(vec3(0.0, 0.0, 3.0), vec3(0.0, 0.0, -1.0), 0.0);
    let h = s.hit_with(&r, &ahead(), f64::sqrt, uv).unwrap();
    assert_eq!(h.t, 2.0);
    assert_eq!(h.p, vec3(0.0, 0.0, 1.0));
    assert_eq!(h.normal, vec3(0.0, 0.0, 1.0));
    assert!(h.front_face);
    assert_eq!(h.mat, 7);
    assert_eq!(h.uv, Vec2::new(0.25, 0.5));
}

#[test]
fn a_negative_discriminant_is_a_miss() {
    let s = Sphere::stationary(vec3(0.0, 0.0, 0.0), 1.0, ());
    let r = Ray::new(vec3(0.0, 2.0, 3.0), vec3(0.0, 0.0, -1.0), 0.0);
    assert!(s.quadratic(&r).discriminant < 0.0);
    assert!(s.hit_with(&r, &ahead(), f64::sqrt, uv).is_none());
}

#[test]
fn quadratic_of_a_central_ray() {
    let s = Sphere::stationary(vec3(0.0, 0.0, 0.0), 1.0, ());
    let r = Ray::new(vec3(0.0, 0.0, 3.0), vec3(0.0, 0.0, -2.0), 0.0);
    let q = s.quadratic(&r);
    assert_eq!(q.a, 4.0);
    assert_eq!(q.h, 6.0);
    assert_eq!(q.discriminant, 36.0 - 4.0 * 8.0);
}

#[test]
fn from_inside_the_far_root_is_hit() {
    let s = Sphere::stationary(vec3(0.0, 0.0, 0.0), 1.0, ());
    let r = Ray::new(vec3(0.0, 0.0, 0.0), vec3(0.0, 0.0, -1.0), 0.0);
    let h = s.hit_with(&r, &ahead(), f64::sqrt, uv).unwrap();
    assert_eq!(h.t, 1.0);
    assert!(!h.front_face);
    assert_eq!(h.normal, vec3(0.0, 0.0, 1.0));
}

#[test]
fn roots_on_the_ends_of_the_range_do_not_count() {
    let near = Interval::new(2.0, 10.0);
    assert_eq!(Sphere::<f64, ()>::nearest_root(&near, 1.0, 3.0, 1.0), Some(4.0));
    let far = Interval::new(0.0, 4.0);
    assert_eq!(Sphere::<f64, ()>::nearest_root(&far, 1.0, 3.0, 1.0), Some(2.0));
    let both = Interval::new(2.0, 4.0);
    assert_eq!(Sphere::<f64, ()>::nearest_root(&both, 1.0, 3.0, 1.0), None);
    let wide = Interval::new(0.0, 10.0);
    assert_eq!(Sphere::<f64, ()>::nearest_root(&wide, 1.0, 3.0, 1.0), Some(2.0));
    let short = Interval::new(0.0, 1.0);
    assert_eq!(Sphere::<f64, ()>::nearest_root(&short, 1.0, 3.0, 1.0), None);
}

#[test]
fn the_hit_is_the_least_root_inside() {
    let s = Sphere::stationary(vec3(0.5, -0.25, 0.0), 1.5, ());
    let r = Ray::new(vec3(0.0, 0.0, 5.0), vec3(0.1, 0.05, -1.0), 0.0);
    let q = s.quadratic(&r);
    let sq = q.discriminant.sqrt();
    let (near, far) = ((q.h - sq) / q.a, (q.h + sq) / q.a);
    assert!(near < far);
    for (lo, hi) in [(0.001, f64::INFINITY), (near, f64::INFINITY), (0.0, far), (near, far), (far, 99.0)] {
        let got = s.hit_with(&r, &Interval::new(lo, hi), f64::sqrt, uv).map(|h| h.t);
        let want = [near, far].into_iter().find(|t| lo < *t && *t < hi);
        assert_eq!(got, want);
    }
}

#[test]
fn stationary_box() {
    let s = Sphere::stationary(vec3(1.0, 2.0, 3.0), 0.5, ());
    let b = s.bbox();
    assert_eq!((b.x.min, b.x.max), (0.5, 1.5));
    assert_eq!((b.y.min, b.y.max), (1.5, 2.5));
    assert_eq!((b.z.min, b.z.max), (2.5, 3.5));
    assert_eq!(s.center.origin, vec3(1.0, 2.0, 3.0));
    assert_eq!(s.center.direction, vec3(0.0, 0.0, 0.0));
    assert_eq!(s.radius, 0.5);
}

#[test]
fn moving_box_holds_both_ends() {
    let s = Sphere::moving(vec3(0.0, 0.0, 0.0), vec3(2.0, 1.0, 0.0), 0.5, ());
    let b = s.bbox();
    assert_eq!((b.x.min, b.x.max), (-0.5, 2.5));
    assert_eq!((b.y.min, b.y.max), (-0.5, 1.5));
    assert_eq!((b.z.min, b.z.max), (-0.5, 0.5));
    assert_eq!(s.center.direction, vec3(2.0, 1.0, 0.0));
}

#[test]
fn a_moving_sphere_is_hit_where_it_is_at_the_time_of_the_ray() {
    let s = Sphere::moving(vec3(0.0, 0.0, 0.0), vec3(2.0, 0.0, 0.0), 0.5, ());
    let n = 1000;
    let mut sum = vec3(0.0, 0.0, 0.0);
    let mut hits = 0.0;
    for k in 0..n {
        let time = (k as f64 + 0.5) / n as f64;
        let r = Ray::new(vec3(2.0 * time, 0.0, 5.0), vec3(0.0, 0.0, -1.0), time);
        let h = s.hit_with(&r, &ahead(), f64::sqrt, uv).unwrap();
        assert!((h.t - 4.5).abs() < 1e-12);
        sum = sum + (h.p - vec3(0.0, 0.0, 0.5));
        hits += 1.0;
    }
    let mean = sum / hits;
    assert!(mean.approx_eq(&vec3(1.0, 0.0, 0.0)));
    let still = Ray::new(vec3(1.0, 0.0, 5.0), vec3(0.0, 0.0, -1.0), 0.0);
    assert!(s.hit_with(&still, &ahead(), f64::sqrt, uv).is_none());
    let half = Ray::new(vec3(1.0, 0.0, 5.0), vec3(0.0, 0.0, -1.0), 0.5);
    assert_eq!(s.hit_with(&half, &ahead(), f64::sqrt, uv).unwrap().p, vec3(1.0, 0.0, 0.5));
}

#[test]
fn the_silhouette_matches_the_projection() {
    let unit = |v: &Vec3| v.unit(&f64::sqrt);
    let h = (40.0f64.to_radians() / 2.0).tan();
    let cam = Camera::new(
        100,
        100,
        h,
        vec3(0.0, 0.0, 3.0),
        vec3(0.0, 0.0, 0.0),
        vec3(0.0, 1.0, 0.0),
        0.0,
        0.0,
        3.0,
        100,
        10,
        unit,
    );
    let s = Sphere::stationary(vec3(0.0, 0.0, 0.0), 1.0, ());
    // The sphere is seen under the half angle asin(1/3); in pixels from the
    // middle of row 50 that is tan(asin(1/3)) / tan(20 degrees) * 50.
    let want = (1.0f64 / 3.0).asin().tan() / h * 50.0;
    let mut first = None;
    let mut last = None;
    for i in 0..100u32 {
        let r = cam.get_ray(i, 50, 0.0, 0.0, (0.0, 0.0), 0.0);
        if s.hit_with(&r, &ahead(), f64::sqrt, uv).is_some() {
            if first.is_none() {
                first = Some(i);
            }
            last = Some(i);
        }
    }
    let (first, last) = (first.unwrap() as f64, last.unwrap() as f64);
    let radius = (last - first + 1.0) / 2.0;
    assert!((radius - want).abs() <= 2.0);
    assert!(((first + last) / 2.0 - 49.5).abs() <= 1.0);
}
