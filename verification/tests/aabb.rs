use yarr::aabb::AABB;
use yarr::interval::Interval;
use yarr::math::Vector;
use yarr::ray::Ray;

fn vec3(x: f64, y: f64, z: f64) -> Vector<f64, 3> {
    Vector::<f64, 3>::new(x, y, z)
}

fn range(min: f64, max: f64) -> Interval<f64> {
    Interval::new(min, max)
}

fn cube() -> AABB<f64> {
    AABB::from_points(vec3(-1.0, -1.0, -1.0), vec3(1.0, 1.0, 1.0))
}

#[test]
fn from_points_orders_each_axis() {
    let b = AABB::from_points(vec3(1.0, -2.0, 3.0), vec3(-1.0, 2.0, 0.0));
    assert_eq!(b.x, range(-1.0, 1.0));
    assert_eq!(b.y, range(-2.0, 2.0));
    assert_eq!(b.z, range(0.0, 3.0));
}

#[test]
fn thin_sides_are_padded() {
    let b = AABB::from_points(vec3(0.0, 0.0, 2.0), vec3(1.0, 1.0, 2.0));
    assert_eq!(b.x, range(0.0, 1.0));
    assert_eq!(b.z, range(2.0 - 0.00005, 2.0 + 0.00005));
    assert!(b.z.size() >= 0.0001 - 1e-12);
    let c = AABB::new(range(0.0, 0.00009), range(0.0, 0.0001), range(5.0, 5.0));
    assert_eq!(c.x, range(0.0 - 0.00005, 0.00009 + 0.00005));
    assert_eq!(c.y, range(0.0, 0.0001));
    assert_eq!(c.z, range(5.0 - 0.00005, 5.0 + 0.00005));
}

#[test]
fn every_side_is_at_least_the_least_thickness() {
    for (a, b) in [
        (vec3(0.0, 0.0, 0.0), vec3(0.0, 0.0, 0.0)),
        (vec3(1.0, 2.0, 3.0), vec3(1.0, 5.0, 3.0)),
        (vec3(-4.0, 0.5, 0.25), vec3(4.0, 0.5, 0.25)),
    ] {
        let bx = AABB::from_points(a, b);
        for i in 0..3 {
            assert!(bx.axis(i).size() >= 0.0001 - 1e-15);
        }
    }
}

#[test]
fn longest_axis_picks_the_longest() {
    assert_eq!(AABB::new(range(0.0, 3.0), range(0.0, 2.0), range(0.0, 1.0)).longest_axis(), 0);
    assert_eq!(AABB::new(range(0.0, 1.0), range(0.0, 3.0), range(0.0, 2.0)).longest_axis(), 1);
    assert_eq!(AABB::new(range(0.0, 1.0), range(0.0, 2.0), range(0.0, 3.0)).longest_axis(), 2);
    assert_eq!(AABB::new(range(0.0, 1.0), range(0.0, 1.0), range(0.0, 1.0)).longest_axis(), 2);
    assert_eq!(AABB::new(range(0.0, 2.0), range(0.0, 2.0), range(0.0, 1.0)).longest_axis(), 1);
    assert_eq!(AABB::new(range(0.0, 2.0), range(0.0, 1.0), range(0.0, 2.0)).longest_axis(), 2);
}

#[test]
fn axis_by_number() {
    let b = AABB::new(range(0.0, 1.0), range(2.0, 3.0), range(4.0, 5.0));
    assert_eq!(*b.axis(0), range(0.0, 1.0));
    assert_eq!(*b.axis(1), range(2.0, 3.0));
    assert_eq!(*b.axis(2), range(4.0, 5.0));
    assert_eq!(*b.axis(7), range(0.0, 1.0));
}

#[test]
fn a_ray_through_the_box_hits() {
    let r = Ray::new(vec3(0.0, 0.0, 5.0), vec3(0.0, 0.0, -1.0), 0.0);
    assert!(cube().hit(&r, range(0.001, f64::INFINITY)));
    assert!(cube().hit(&r, range(0.0, 4.5)));
}

#[test]
fn a_ray_beside_the_box_misses() {
    let r = Ray::new(vec3(2.0, 0.0, 5.0), vec3(0.0, 0.0, -1.0), 0.0);
    assert!(!cube().hit(&r, range(0.001, f64::INFINITY)));
}

#[test]
fn a_ray_that_stops_short_misses() {
    let r = Ray::new(vec3(0.0, 0.0, 5.0), vec3(0.0, 0.0, -1.0), 0.0);
    assert!(!cube().hit(&r, range(0.001, 3.9)));
    assert!(!cube().hit(&r, range(0.001, 4.0)));
    assert!(!cube().hit(&r, range(6.0, 100.0)));
}

#[test]
fn a_ray_away_from_the_box_misses() {
    let r = Ray::new(vec3(0.0, 0.0, 5.0), vec3(0.0, 0.0, 1.0), 0.0);
    assert!(!cube().hit(&r, range(0.001, f64::INFINITY)));
}

#[test]
fn a_slanted_ray_hits() {
    let r = Ray::new(vec3(-5.0, -5.0, -5.0), vec3(1.0, 1.0, 1.0), 0.0);
    assert!(cube().hit(&r, range(0.0, f64::INFINITY)));
    let s = Ray::new(vec3(-5.0, -5.0, -5.0), vec3(1.0, 1.0, -1.0), 0.0);
    assert!(!cube().hit(&s, range(0.0, f64::INFINITY)));
}

#[test]
fn union_holds_both() {
    let a = AABB::new(range(0.0, 1.0), range(0.0, 1.0), range(0.0, 1.0));
    let b = AABB::new(range(-2.0, 0.5), range(0.5, 3.0), range(0.25, 0.75));
    let u = a + b;
    assert_eq!(u.x, range(-2.0, 1.0));
    assert_eq!(u.y, range(0.0, 3.0));
    assert_eq!(u.z, range(0.0, 1.0));
}

#[test]
fn union_is_associative() {
    let items = [
        AABB::new(range(0.0, 1.0), range(0.0, 1.0), range(0.0, 1.0)),
        AABB::new(range(-2.0, 0.5), range(0.5, 3.0), range(0.25, 0.75)),
        AABB::new(range(4.0, 5.0), range(-7.0, -6.0), range(0.0, 0.5)),
    ];
    for a in items {
        for b in items {
            for c in items {
                let l = (a + b) + c;
                let r = a + (b + c);
                assert_eq!(l.x, r.x);
                assert_eq!(l.y, r.y);
                assert_eq!(l.z, r.z);
            }
        }
    }
}

#[test]
fn grows_from_empty() {
    let mut e = AABB::<f64>::empty();
    let a = AABB::new(range(0.0, 1.0), range(2.0, 3.0), range(4.0, 5.0));
    e.add_assign(&a);
    assert_eq!(e.x, a.x);
    assert_eq!(e.y, a.y);
    assert_eq!(e.z, a.z);
    e.add_assign(&AABB::new(range(-1.0, 0.5), range(2.5, 9.0), range(4.0, 5.0)));
    assert_eq!(e.x, range(-1.0, 1.0));
    assert_eq!(e.y, range(2.0, 9.0));
    assert_eq!(e.z, range(4.0, 5.0));
}

#[test]
fn add_vec_moves_the_box() {
    let a = AABB::new(range(0.0, 1.0), range(2.0, 3.0), range(4.0, 5.0));
    let m = a.add_vec(vec3(1.0, -2.0, 0.5));
    assert_eq!(m.x, range(1.0, 2.0));
    assert_eq!(m.y, range(0.0, 1.0));
    assert_eq!(m.z, range(4.5, 5.5));
}

#[test]
fn far_from_the_origin_padding_is_lost_in_rounding() {
    let b = AABB::from_points(vec3(1e20, 0.0, 0.0), vec3(1e20, 1.0, 1.0));
    assert_eq!(b.x.size(), 0.0);
}
