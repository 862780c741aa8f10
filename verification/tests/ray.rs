use yarr::math::Vector;
use yarr::object::Hit;
use yarr::ray::Ray;

fn vec3(x: f64, y: f64, z: f64) -> Vector<f64, 3> {
    Vector::<f64, 3>::new(x, y, z)
}

#[test]
fn test_at() {
    let r = Ray::new(vec3(1.0, 2.0, 3.0), vec3(4.0, 5.0, 6.0), 0.0);
    assert_eq!(r.at(0.0), r.origin);
    assert_eq!(r.at(1.0), vec3(5.0, 7.0, 9.0));
    assert_eq!(r.at(1.5), vec3(7.0, 9.5, 12.0));
}

#[test]
fn hit_keeps_the_outward_normal_from_outside() {
    let r = Ray::new(vec3(0.0, 0.0, 5.0), vec3(0.0, 0.0, -1.0), 0.25);
    let h = Hit::new(4.0, r.at(4.0), &r, vec3(0.0, 0.0, 1.0), Vector::<f64, 2>::new(0.3, 0.7), 9u8);
    assert!(h.front_face);
    assert_eq!(h.normal, vec3(0.0, 0.0, 1.0));
    assert_eq!(h.t, 4.0);
    assert_eq!(h.p, vec3(0.0, 0.0, 1.0));
    assert_eq!(h.uv, Vector::<f64, 2>::new(0.3, 0.7));
    assert_eq!(h.mat, 9);
}

#[test]
fn hit_turns_the_normal_from_inside() {
    let r = Ray::new(vec3(0.0, 0.0, 0.0), vec3(0.0, 0.0, 1.0), 0.0);
    let h = Hit::new(1.0, r.at(1.0), &r, vec3(0.0, 0.0, 1.0), Vector::<f64, 2>::new(0.0, 0.0), ());
    assert!(!h.front_face);
    assert_eq!(h.normal, vec3(0.0, 0.0, -1.0));
}

#[test]
fn a_grazing_ray_counts_as_inside() {
    let r = Ray::new(vec3(0.0, 0.0, 0.0), vec3(1.0, 0.0, 0.0), 0.0);
    let h = Hit::new(1.0, r.at(1.0), &r, vec3(0.0, 1.0, 0.0), Vector::<f64, 2>::new(0.0, 0.0), ());
    assert!(!h.front_face);
    assert_eq!(h.normal, vec3(-0.0, -1.0, -0.0));
}
