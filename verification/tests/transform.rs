use yarr::aabb::AABB;
use yarr::constant_medium::ConstantMedium;
use yarr::interval::Interval;
use yarr::math::Vector;
use yarr::object::{Hit, Object};
use yarr::ray::Ray;
use yarr::sphere::Sphere;
use yarr::transform::{RotateY, Translate};

type Vec3 = Vector<f64, 3>;

fn vec3(x: f64, y: f64, z: f64) -> Vec3 {
    Vec3::new(x, y, z)
}

struct Ball(Sphere<f64, usize>);

impl Object<f64> for Ball {
    type Mat = usize;

    fn hit(&self, r: &Ray<f64>, ray_t: &Interval<f64>) -> Option<Hit<f64, usize>> {
        self.0.hit_with(r, ray_t, f64::sqrt, |_n: &Vec3| Vector::<f64, 2>::new(0.0, 0.0))
    }

    fn bbox(&self) -> &AABB<f64> {
        self.0.bbox()
    }
}

fn ball(x: f64, y: f64, z: f64, radius: f64) -> Ball {
    Ball(Sphere::stationary(vec3(x, y, z), radius, 1))
}

fn length(v: &Vec3) -> f64 {
    v.length(&f64::sqrt)
}

#[test]
fn a_moved_shape_is_hit_where_it_was_moved_to() {
    let t = Translate::new(ball(0.0, 0.0, 0.0, 1.0), vec3(3.0, 0.0, 0.0));
    let r = Ray::new(vec3(3.0, 0.0, 5.0), vec3(0.0, 0.0, -1.0), 0.5);
    let h = t.hit(&r, &Interval::from(0.001)).unwrap();
    assert_eq!(h.t, 4.0);
    assert_eq!(h.p, vec3(3.0, 0.0, 1.0));
    assert_eq!(h.normal, vec3(0.0, 0.0, 1.0));
    let old = Ray::new(vec3(0.0, 0.0, 5.0), vec3(0.0, 0.0, -1.0), 0.5);
    assert!(t.hit(&old, &Interval::from(0.001)).is_none());
    let b = t.bbox();
    assert_eq!((b.x.min, b.x.max), (2.0, 4.0));
    assert_eq!((b.y.min, b.y.max), (-1.0, 1.0));
}

#[test]
fn a_quarter_turn_brings_x_to_minus_z() {
    let (sin, cos) = (1.0, 0.0);
    let t = RotateY::new(ball(4.0, 0.0, 0.0, 1.0), sin, cos);
    // The ball at x = 4 is seen at z = -4.
    let r = Ray::new(vec3(0.0, 0.0, 5.0), vec3(0.0, 0.0, -1.0), 0.0);
    let h = t.hit(&r, &Interval::from(0.001)).unwrap();
    assert_eq!(h.t, 8.0);
    assert!(h.p.approx_eq(&vec3(0.0, 0.0, -3.0)));
    assert!(h.normal.approx_eq(&vec3(0.0, 0.0, 1.0)));
    let b = t.bbox();
    assert_eq!((b.x.min, b.x.max), (-1.0, 1.0));
    assert_eq!((b.y.min, b.y.max), (-1.0, 1.0));
    assert_eq!((b.z.min, b.z.max), (-5.0, -3.0));
}

#[test]
fn a_turn_by_nothing_changes_nothing() {
    let t = RotateY::new(ball(1.0, 2.0, 3.0, 1.0), 0.0, 1.0);
    let r = Ray::new(vec3(1.0, 2.0, 9.0), vec3(0.0, 0.0, -1.0), 0.0);
    let h = t.hit(&r, &Interval::from(0.001)).unwrap();
    assert_eq!(h.t, 5.0);
    assert_eq!(h.p, vec3(1.0, 2.0, 4.0));
    let b = t.bbox();
    assert_eq!((b.x.min, b.x.max), (0.0, 2.0));
    assert_eq!((b.z.min, b.z.max), (2.0, 4.0));
}

#[test]
fn an_eighth_turn_widens_the_box() {
    let s = std::f64::consts::FRAC_1_SQRT_2;
    let t = RotateY::new(ball(0.0, 0.0, 0.0, 1.0), s, s);
    let b = t.bbox();
    assert!((b.x.min + 2.0 * s).abs() < 1e-12 && (b.x.max - 2.0 * s).abs() < 1e-12);
    assert!((b.z.min + 2.0 * s).abs() < 1e-12 && (b.z.max - 2.0 * s).abs() < 1e-12);
    assert_eq!((b.y.min, b.y.max), (-1.0, 1.0));
}

#[test]
fn a_thick_medium_scatters_at_the_drawn_distance() {
    let m = ConstantMedium::new(ball(0.0, 0.0, 0.0, 1.0), 2.0, 9u8);
    let r = Ray::new(vec3(0.0, 0.0, 5.0), vec3(0.0, 0.0, -2.0), 0.0);
    // The ray is inside from t = 2 to t = 3; a draw of ln(U) = -1 gives the
    // distance 1/2, a quarter of a unit of t.
    let h = m.hit_with(&r, &Interval::from(0.001), length, || -1.0).unwrap();
    assert_eq!(h.t, 2.25);
    assert_eq!(h.p, vec3(0.0, 0.0, 0.5));
    assert_eq!(h.normal, vec3(1.0, 0.0, 0.0));
    assert!(h.front_face);
    assert_eq!(h.uv, Vector::<f64, 2>::new(0.0, 0.0));
    assert_eq!(h.mat, 9);
}

#[test]
fn a_draw_beyond_the_way_inside_passes_through() {
    let m = ConstantMedium::new(ball(0.0, 0.0, 0.0, 1.0), 2.0, ());
    let r = Ray::new(vec3(0.0, 0.0, 5.0), vec3(0.0, 0.0, -2.0), 0.0);
    assert!(m.hit_with(&r, &Interval::from(0.001), length, || -4.1).is_none());
    assert!(m.hit_with(&r, &Interval::from(0.001), length, || -4.0).is_some());
}

#[test]
fn a_ray_that_misses_the_boundary_is_not_scattered() {
    let m = ConstantMedium::new(ball(0.0, 0.0, 0.0, 1.0), 2.0, ());
    let r = Ray::new(vec3(3.0, 0.0, 5.0), vec3(0.0, 0.0, -1.0), 0.0);
    assert!(m.hit_with(&r, &Interval::from(0.001), length, || -0.1).is_none());
}

#[test]
fn the_stretch_is_cut_to_the_range_and_to_what_lies_ahead() {
    type M = ConstantMedium<f64, Ball, ()>;
    assert_eq!(M::clip(&Interval::new(0.0, 10.0), 2.0, 3.0), Some((2.0, 3.0)));
    assert_eq!(M::clip(&Interval::new(2.5, 10.0), 2.0, 3.0), Some((2.5, 3.0)));
    assert_eq!(M::clip(&Interval::new(0.0, 2.5), 2.0, 3.0), Some((2.0, 2.5)));
    assert_eq!(M::clip(&Interval::new(3.5, 10.0), 2.0, 3.0), None);
    assert_eq!(M::clip(&Interval::new(0.0, 1.0), 2.0, 3.0), None);
    assert_eq!(M::clip(&Interval::new(-5.0, 10.0), -2.0, 3.0), Some((0.0, 3.0)));
    assert_eq!(M::clip(&Interval::new(3.0, 10.0), 2.0, 3.0), Some((3.0, 3.0)));
}

#[test]
fn from_inside_the_way_starts_at_the_origin() {
    let m = ConstantMedium::new(ball(0.0, 0.0, 0.0, 1.0), 1.0, ());
    let r = Ray::new(vec3(0.0, 0.0, 0.0), vec3(0.0, 0.0, -1.0), 0.0);
    let all = Interval::new(-5.0, 10.0);
    let h = m.hit_with(&r, &all, length, || -0.5).unwrap();
    assert_eq!(h.t, 0.5);
    assert!(m.hit_with(&r, &all, length, || -1.5).is_none());
    let ahead = m.hit_with(&r, &Interval::from(0.001), length, || -0.5).unwrap();
    assert_eq!(ahead.t, 0.501);
}

#[test]
fn settle_is_the_start_plus_the_distance() {
    type M = ConstantMedium<f64, Ball, ()>;
    assert_eq!(M::settle(2.0, 3.0, 2.0, 0.5), Some(2.25));
    assert_eq!(M::settle(2.0, 3.0, 2.0, 2.0), Some(3.0));
    assert_eq!(M::settle(2.0, 3.0, 2.0, 2.5), None);
}

#[test]
fn a_medium_of_one_colour_scatters_in_that_colour() {
    let m = ConstantMedium::solid(ball(0.0, 0.0, 0.0, 1.0), 2.0, vec3(0.2, 0.4, 0.9));
    let r = Ray::new(vec3(0.0, 0.0, 5.0), vec3(0.0, 0.0, -1.0), 0.5);
    let h = m.hit_with(&r, &Interval::from(0.001), length, || -2.0).unwrap();
    assert_eq!(h.t, 5.0);
    let s = h.mat.scatter(&r, &h, vec3(0.0, 1.0, 0.0));
    assert_eq!(s.att, vec3(0.2, 0.4, 0.9));
    assert_eq!(s.ray.origin, vec3(0.0, 0.0, 0.0));
    assert_eq!(s.ray.time, 0.5);
}
