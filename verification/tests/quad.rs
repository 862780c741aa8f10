use yarr::interval::Interval;
use yarr::math::Vector;
use yarr::object::Object;
use yarr::quad::{quad_uv, Quad};
use yarr::ray::Ray;
use yarr::shapes::make_box;

type Vec3 = Vector<f64, 3>;
type Vec2 = Vector<f64, 2>;

fn vec3(x: f64, y: f64, z: f64) -> Vec3 {
    Vec3::new(x, y, z)
}

fn length(v: &Vec3) -> f64 {
    v.length(&f64::sqrt)
}

fn floor() -> Quad<f64, u8> {
    Quad::new(vec3(-1.0, 0.0, -1.0), vec3(2.0, 0.0, 0.0), vec3(0.0, 0.0, 2.0), 3, &length)
}

fn everything() -> Interval<f64> {
    Interval::from(0.001)
}

#[test]
fn quad_uv_accepts_the_unit_square() {
    assert_eq!(quad_uv(0.0, 0.0), Some(Vec2::new(0.0, 0.0)));
    assert_eq!(quad_uv(1.0, 1.0), Some(Vec2::new(1.0, 1.0)));
    assert_eq!(quad_uv(0.25, 0.75), Some(Vec2::new(0.25, 0.75)));
    assert_eq!(quad_uv(-0.001, 0.5), None);
    assert_eq!(quad_uv(0.5, 1.001), None);
    assert_eq!(quad_uv(f64::NAN, 0.5), None);
}

#[test]
fn a_ray_from_above_hits_the_floor() {
    let r = Ray::new(vec3(0.5, 2.0, -0.5), vec3(0.0, -1.0, 0.0), 0.0);
    let h = floor().hit(&r, &everything()).unwrap();
    assert_eq!(h.t, 2.0);
    assert_eq!(h.p, vec3(0.5, 0.0, -0.5));
    assert_eq!(h.uv, Vec2::new(0.75, 0.25));
    assert_eq!(h.mat, 3);
    assert!((h.normal.length(&f64::sqrt) - 1.0).abs() < 1e-12);
    assert!(h.normal.dot(&r.direction) < 0.0);
}

#[test]
fn hits_have_coordinates_in_the_unit_square() {
    let q = Quad::new(vec3(0.0, 0.0, 0.0), vec3(1.0, 0.2, 0.0), vec3(0.1, 1.5, 0.3), (), &length);
    let mut hits = 0;
    for i in -20..40 {
        for j in -20..40 {
            let r = Ray::new(vec3(i as f64 / 20.0, j as f64 / 20.0, 4.0), vec3(0.01, -0.02, -1.0), 0.0);
            if let Some(h) = q.hit(&r, &everything()) {
                hits += 1;
                assert!(0.0 <= h.uv.u() && h.uv.u() <= 1.0);
                assert!(0.0 <= h.uv.v() && h.uv.v() <= 1.0);
                assert!((h.normal.length(&f64::sqrt) - 1.0).abs() < 1e-12);
            }
        }
    }
    assert!(hits > 100);
}

#[test]
fn a_ray_along_the_plane_misses() {
    let r = Ray::new(vec3(-5.0, 0.0, 0.0), vec3(1.0, 0.0, 0.0), 0.0);
    assert!(floor().hit(&r, &everything()).is_none());
    let nearly = Ray::new(vec3(-5.0, 1e-9, 0.0), vec3(1.0, -1e-9, 0.0), 0.0);
    assert!(floor().hit(&nearly, &everything()).is_none());
}

#[test]
fn a_ray_off_the_patch_misses() {
    let r = Ray::new(vec3(1.5, 2.0, 0.0), vec3(0.0, -1.0, 0.0), 0.0);
    assert!(floor().hit(&r, &everything()).is_none());
}

#[test]
fn the_range_counts_with_its_ends() {
    let r = Ray::new(vec3(0.0, 2.0, 0.0), vec3(0.0, -1.0, 0.0), 0.0);
    assert!(floor().hit(&r, &Interval::new(0.0, 2.0)).is_some());
    assert!(floor().hit(&r, &Interval::new(2.0, 3.0)).is_some());
    assert!(floor().hit(&r, &Interval::new(0.0, 1.999)).is_none());
    assert!(floor().hit(&r, &Interval::new(2.001, 9.0)).is_none());
}

#[test]
fn the_box_of_a_patch_is_padded() {
    let q = floor();
    let b = q.bbox();
    assert_eq!((b.x.min, b.x.max), (-1.0, 1.0));
    assert_eq!((b.z.min, b.z.max), (-1.0, 1.0));
    assert!(b.y.min < 0.0 && b.y.max > 0.0);
    assert!(b.y.size() >= 0.0001 - 1e-15);
}

#[test]
fn a_box_has_six_sides_that_face_outwards() {
    let g = make_box(vec3(1.0, 1.0, 1.0), vec3(-1.0, -1.0, -1.0), 5u8, &length);
    assert_eq!(g.objects.len(), 6);
    for (from, dir) in [
        (vec3(0.0, 0.0, 5.0), vec3(0.0, 0.0, -1.0)),
        (vec3(5.0, 0.0, 0.0), vec3(-1.0, 0.0, 0.0)),
        (vec3(0.0, 0.0, -5.0), vec3(0.0, 0.0, 1.0)),
        (vec3(-5.0, 0.0, 0.0), vec3(1.0, 0.0, 0.0)),
        (vec3(0.0, 5.0, 0.0), vec3(0.0, -1.0, 0.0)),
        (vec3(0.0, -5.0, 0.0), vec3(0.0, 1.0, 0.0)),
    ] {
        let r = Ray::new(from, dir, 0.0);
        let h = g.hit(&r, &everything()).unwrap();
        assert_eq!(h.t, 4.0);
        assert!(h.front_face);
        assert_eq!(h.normal, -dir);
        assert_eq!(h.mat, 5);
    }
    let b = g.bbox();
    assert_eq!((b.x.min, b.x.max), (-1.00005, 1.00005));
}
