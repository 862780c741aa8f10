use yarr::constant_medium::Isotropic;
use yarr::dielectric::{reflectance, Dielectric};
use yarr::diffuse_light::DiffuseLight;
use yarr::lambertian::Lambertian;
use yarr::material::Material;
use yarr::math::Vector;
use yarr::metal::Metal;
use yarr::object::Hit;
use yarr::ray::Ray;
use yarr::solid_color::SolidColor;
use yarr::texture::Texture;

type Vec3 = Vector<f64, 3>;
type Vec2 = Vector<f64, 2>;

fn vec3(x: f64, y: f64, z: f64) -> Vec3 {
    Vec3::new(x, y, z)
}

fn hit_on_floor<M>(r: &Ray<f64>, mat: M) -> Hit<f64, M> {
    Hit::new(1.0, vec3(0.0, 0.0, 0.0), r, vec3(0.0, 1.0, 0.0), Vec2::new(0.25, 0.5), mat)
}

fn falling() -> Ray<f64> {
    Ray::new(vec3(-1.0, 1.0, 0.0), vec3(1.0, -1.0, 0.0), 0.75)
}

#[test]
fn solid_colour_is_the_same_everywhere() {
    let s = SolidColor::rgb(0.1, 0.2, 0.3);
    assert_eq!(s.sample_tex(&Vec2::new(0.0, 1.0), &vec3(5.0, 6.0, 7.0)), vec3(0.1, 0.2, 0.3));
    assert_eq!(s.sample_tex(&Vec2::new(0.5, 0.5), &vec3(0.0, 0.0, 0.0)), vec3(0.1, 0.2, 0.3));
}

#[test]
fn lambertian_adds_the_random_vector_to_the_normal() {
    let l = Lambertian::solid(vec3(0.8, 0.4, 0.2));
    let r = falling();
    let h = hit_on_floor(&r, ());
    let s = l.scatter(&r, &h, vec3(0.6, 0.0, 0.8));
    assert_eq!(s.att, vec3(0.8, 0.4, 0.2));
    assert_eq!(s.ray.origin, vec3(0.0, 0.0, 0.0));
    assert_eq!(s.ray.direction, vec3(0.6, 1.0, 0.8));
    assert_eq!(s.ray.time, 0.75);
}

#[test]
fn lambertian_falls_back_to_the_normal() {
    let l = Lambertian::solid(vec3(0.8, 0.4, 0.2));
    let r = falling();
    let h = hit_on_floor(&r, ());
    let s = l.scatter(&r, &h, vec3(0.0, -1.0, 0.0));
    assert_eq!(s.ray.direction, vec3(0.0, 1.0, 0.0));
    let nearly = l.scatter(&r, &h, vec3(1e-9, -1.0 + 1e-9, -1e-9));
    assert_eq!(nearly.ray.direction, vec3(0.0, 1.0, 0.0));
}

#[test]
fn polished_metal_mirrors() {
    let m = Metal::solid(vec3(0.9, 0.9, 0.9), 0.0);
    let r = falling();
    let h = hit_on_floor(&r, ());
    let s = m.scatter(&r, &h, vec3(0.0, 1.0, 0.0), &f64::sqrt).unwrap();
    let d = std::f64::consts::FRAC_1_SQRT_2;
    assert!(s.ray.direction.approx_eq(&vec3(d, d, 0.0)));
    assert_eq!(s.att, vec3(0.9, 0.9, 0.9));
    assert_eq!(s.ray.time, 0.75);
    assert_eq!(s.ray.origin, vec3(0.0, 0.0, 0.0));
}

#[test]
fn brushed_metal_blurs_and_may_swallow() {
    let m = Metal::solid(vec3(0.9, 0.9, 0.9), 0.5);
    let r = falling();
    let h = hit_on_floor(&r, ());
    let d = std::f64::consts::FRAC_1_SQRT_2;
    let s = m.scatter(&r, &h, vec3(1.0, 0.0, 0.0), &f64::sqrt).unwrap();
    assert!(s.ray.direction.approx_eq(&vec3(d + 0.5, d, 0.0)));
    let deep = Metal::solid(vec3(0.9, 0.9, 0.9), 1.0);
    assert!(deep.scatter(&r, &h, vec3(0.0, -1.0, 0.0), &f64::sqrt).is_none());
}

#[test]
fn reflectance_rises_towards_grazing() {
    let straight = reflectance(1.0, 1.5, &f64::powf);
    assert!((straight - 0.04).abs() < 1e-12);
    let grazing = reflectance(0.01, 1.5, &f64::powf);
    assert!(grazing > 0.9);
    assert_eq!(reflectance(0.0, 1.5, &f64::powf), 1.0);
    let mut last = straight;
    for k in 1..=100 {
        let r = reflectance(1.0 - k as f64 / 100.0, 1.5, &f64::powf);
        assert!(r >= last);
        last = r;
    }
}

#[test]
fn straight_on_glass_bends_the_ray_inwards() {
    let g = Dielectric { refraction_index: 1.5 };
    let r = Ray::new(vec3(0.0, 1.0, 0.0), vec3(0.0, -1.0, 0.0), 0.75);
    let h = hit_on_floor(&r, ());
    let s = g.scatter(&h, vec3(0.0, -1.0, 0.0), &f64::sqrt, &f64::powf, 0.5);
    assert_eq!(s.att, vec3(1.0, 1.0, 1.0));
    assert_eq!(s.ray.time, 0.0);
    assert!(s.ray.direction.dot(&h.normal) < 0.0);
    assert!(s.ray.direction.approx_eq(&vec3(0.0, -1.0, 0.0)));
}

#[test]
fn glass_mirrors_where_chance_says_so() {
    let g = Dielectric { refraction_index: 1.5 };
    let r = Ray::new(vec3(0.0, 1.0, 0.0), vec3(0.0, -1.0, 0.0), 0.0);
    let h = hit_on_floor(&r, ());
    let s = g.scatter(&h, vec3(0.0, -1.0, 0.0), &f64::sqrt, &f64::powf, 0.01);
    assert_eq!(s.ray.direction, vec3(0.0, 1.0, 0.0));
}

#[test]
fn glass_mirrors_all_light_beyond_the_critical_angle() {
    let g = Dielectric { refraction_index: 1.5 };
    let d = vec3(0.8, 0.6, 0.0);
    let r = Ray::new(vec3(-0.8, -0.6, 0.0), d, 0.0);
    let h = hit_on_floor(&r, ());
    assert!(!h.front_face);
    let s = g.scatter(&h, d, &f64::sqrt, &f64::powf, 0.999999);
    assert!(s.ray.direction.approx_eq(&vec3(0.8, -0.6, 0.0)));
    assert!(Dielectric::<f64>::reflects(1.5, 0.8, 0.0, 0.999));
    assert!(!Dielectric::<f64>::reflects(1.5, 0.5, 0.1, 0.5));
    assert!(Dielectric::<f64>::reflects(1.5, 0.5, 0.6, 0.5));
}

#[test]
fn a_light_gives_off_its_colour_and_sends_nothing_on() {
    let l = DiffuseLight::solid(vec3(4.0, 4.0, 4.0));
    let r = falling();
    let h = hit_on_floor(&r, DiffuseLight::solid(vec3(4.0, 4.0, 4.0)));
    assert_eq!(l.emitted(&r, &h), vec3(4.0, 4.0, 4.0));
    assert!(l.scatter(&r, &h).is_none());
}

#[test]
fn a_volume_sends_light_on_along_the_random_vector() {
    let i = Isotropic::solid(vec3(0.3, 0.3, 0.3));
    let r = falling();
    let h = hit_on_floor(&r, ());
    let s = i.scatter(&r, &h, vec3(0.0, 0.6, -0.8));
    assert_eq!(s.ray.direction, vec3(0.0, 0.6, -0.8));
    assert_eq!(s.ray.origin, vec3(0.0, 0.0, 0.0));
    assert_eq!(s.ray.time, 0.75);
    assert_eq!(s.att, vec3(0.3, 0.3, 0.3));
    let j = Isotropic::new(SolidColor::rgb(1.0, 0.0, 0.0));
    assert_eq!(j.scatter(&r, &h, vec3(1.0, 0.0, 0.0)).att, vec3(1.0, 0.0, 0.0));
}
