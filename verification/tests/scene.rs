use yarr::aabb::AABB;
use yarr::background::{Background, Gradient};
use yarr::camera::Camera;
use yarr::group::Group;
use yarr::interval::Interval;
use yarr::material::{Material, Scatter};
use yarr::math::Vector;
use yarr::object::{Hit, Object};
use yarr::quad::Quad;
use yarr::ray::Ray;
use yarr::scene::{decimal, Scene};
use yarr::solid_color::SolidColor;

type Vec3 = Vector<f64, 3>;

fn vec3(x: f64, y: f64, z: f64) -> Vec3 {
    Vec3::new(x, y, z)
}

fn unit(v: &Vec3) -> Vec3 {
    v.unit(&f64::sqrt)
}

fn length(v: &Vec3) -> f64 {
    v.length(&f64::sqrt)
}

/// A surface that glows, that sends light straight on along its normal, or
/// that does neither.
#[derive(Clone, Copy, PartialEq, Debug)]
enum Paint {
    Light(f64),
    Matt(f64),
    Dark,
}

impl Material<f64> for Paint {
    fn scatter(&self, r_in: &Ray<f64>, hit: &Hit<f64, Self>) -> Option<Scatter<f64>> {
        match self {
            Paint::Matt(a) => Some(Scatter { att: vec3(*a, *a, *a), ray: Ray::new(hit.p, hit.normal, r_in.time) }),
            _ => None,
        }
    }

    fn emitted(&self, _r_in: &Ray<f64>, _hit: &Hit<f64, Self>) -> Vec3 {
        match self {
            Paint::Light(e) => vec3(*e, *e, *e),
            _ => vec3(0.0, 0.0, 0.0),
        }
    }
}

struct Patch(Quad<f64, Paint>);

impl Object<f64> for Patch {
    type Mat = Paint;

    fn hit(&self, r: &Ray<f64>, ray_t: &Interval<f64>) -> Option<Hit<f64, Paint>> {
        self.0.hit(r, ray_t)
    }

    fn bbox(&self) -> &AABB<f64> {
        self.0.bbox()
    }
}

fn camera(width: u32, height: u32, samples: u32, depth: u32) -> Camera<f64> {
    Camera::new(
        width,
        height,
        1.0,
        vec3(0.0, 0.0, 1.0),
        vec3(0.0, 0.0, 0.0),
        vec3(0.0, 1.0, 0.0),
        0.0,
        0.0,
        1.0,
        samples,
        depth,
        unit,
    )
}

fn sky() -> Gradient<f64> {
    Gradient::new(vec3(0.5, 0.7, 1.0), vec3(1.0, 1.0, 1.0))
}

fn floor(paint: Paint) -> Patch {
    Patch(Quad::new(vec3(-5.0, 0.0, -5.0), vec3(0.0, 0.0, 10.0), vec3(10.0, 0.0, 0.0), paint, &length))
}

fn lamp(paint: Paint) -> Patch {
    Patch(Quad::new(vec3(-5.0, 3.0, -5.0), vec3(10.0, 0.0, 0.0), vec3(0.0, 0.0, 10.0), paint, &length))
}

#[test]
fn followed_no_further_a_ray_is_black() {
    let s = Scene::new(camera(4, 4, 1, 5), Group::new(vec![lamp(Paint::Light(4.0))]), sky());
    let r = Ray::new(vec3(0.0, 1.0, 0.0), vec3(0.0, 1.0, 0.0), 0.0);
    assert_eq!(s.ray_color(&r, 0, &unit), vec3(0.0, 0.0, 0.0));
    assert_eq!(s.ray_color(&r, 1, &unit), vec3(4.0, 4.0, 4.0));
}

#[test]
fn an_empty_world_shows_the_sky() {
    let s = Scene::new(camera(5, 5, 1, 10), Group::<f64, Patch>::new(vec![]), sky());
    for (i, j) in [(2, 2), (0, 0), (4, 1), (3, 4)] {
        let r = s.camera.get_ray(i, j, 0.0, 0.0, (0.0, 0.0), 0.0);
        let a = 0.5 * (unit(&r.direction).y() + 1.0);
        let want = vec3(1.0, 1.0, 1.0) * (1.0 - a) + vec3(0.5, 0.7, 1.0) * a;
        let c = s.ray_color(&r, 10, &unit);
        assert_eq!(c, want);
        let sample = || r;
        let pixel = s.render(&sample, &unit);
        assert_eq!(pixel, want);
        assert_eq!(
            pixel.to_pixel(&f64::sqrt, &|x: f64| x as u8),
            want.to_pixel(&f64::sqrt, &|x: f64| x as u8)
        );
    }
    let middle = s.camera.get_ray(2, 2, 0.0, 0.0, (0.0, 0.0), 0.0);
    assert_eq!(s.ray_color(&middle, 10, &unit), vec3(0.75, 0.85, 1.0));
}

#[test]
fn a_floor_under_a_lamp_is_lit_by_it() {
    let world = Group::new(vec![lamp(Paint::Light(4.0)), floor(Paint::Matt(0.5))]);
    let s = Scene::new(camera(4, 4, 1, 10), world, SolidColor(vec3(0.0, 0.0, 0.0)));
    let down = Ray::new(vec3(0.0, 1.0, 0.0), vec3(0.1, -1.0, 0.2), 0.0);
    assert_eq!(s.ray_color(&down, 10, &unit), vec3(2.0, 2.0, 2.0));
    assert_eq!(s.ray_color(&down, 2, &unit), vec3(2.0, 2.0, 2.0));
    assert_eq!(s.ray_color(&down, 1, &unit), vec3(0.0, 0.0, 0.0));
}

#[test]
fn without_light_sent_on_or_given_off_only_the_sky_is_seen() {
    let world = Group::new(vec![floor(Paint::Dark)]);
    let s = Scene::new(camera(4, 4, 1, 10), world, sky());
    let down = Ray::new(vec3(0.0, 1.0, 0.0), vec3(0.0, -1.0, 0.0), 0.0);
    let up = Ray::new(vec3(0.0, 1.0, 0.0), vec3(0.0, 1.0, 0.0), 0.0);
    for depth in [1, 2, 10] {
        assert_eq!(s.ray_color(&down, depth, &unit), vec3(0.0, 0.0, 0.0));
        assert_eq!(s.ray_color(&up, depth, &unit), sky().sample_bg(&vec3(0.0, 1.0, 0.0)));
    }
}

#[test]
fn a_ray_does_not_meet_the_surface_it_starts_from() {
    let world = Group::new(vec![floor(Paint::Light(1.0))]);
    let s = Scene::new(camera(4, 4, 1, 10), world, SolidColor(vec3(0.25, 0.25, 0.25)));
    let from_the_floor = Ray::new(vec3(0.0, 0.0, 0.0), vec3(0.0, 1.0, 0.0), 0.0);
    assert_eq!(s.ray_color(&from_the_floor, 5, &unit), vec3(0.25, 0.25, 0.25));
    let just_above = Ray::new(vec3(0.0, 0.002, 0.0), vec3(0.0, -1.0, 0.0), 0.0);
    assert_eq!(s.ray_color(&just_above, 5, &unit), vec3(1.0, 1.0, 1.0));
    let too_near = Ray::new(vec3(0.0, 0.0005, 0.0), vec3(0.0, -1.0, 0.0), 0.0);
    assert_eq!(s.ray_color(&too_near, 5, &unit), vec3(0.25, 0.25, 0.25));
}

#[test]
fn render_is_the_mean_of_the_samples() {
    let world = Group::new(vec![lamp(Paint::Light(4.0))]);
    let s = Scene::new(camera(4, 4, 4, 10), world, SolidColor(vec3(0.0, 0.0, 0.0)));
    let up = Ray::new(vec3(0.0, 1.0, 0.0), vec3(0.0, 1.0, 0.0), 0.0);
    let down = Ray::new(vec3(0.0, 1.0, 0.0), vec3(0.0, -1.0, 0.0), 0.0);
    let turn = std::cell::Cell::new(0);
    let sample = || {
        turn.set(turn.get() + 1);
        if turn.get() % 4 == 0 {
            down
        } else {
            up
        }
    };
    assert_eq!(s.render(&sample, &unit), vec3(3.0, 3.0, 3.0));
    assert_eq!(turn.get(), 4);
}

#[test]
fn gradient_blends_by_height() {
    let g = sky();
    assert_eq!(g.sample_bg(&vec3(0.0, 1.0, 0.0)), vec3(0.5, 0.7, 1.0));
    assert_eq!(g.sample_bg(&vec3(0.0, -1.0, 0.0)), vec3(1.0, 1.0, 1.0));
    assert_eq!(g.sample_bg(&vec3(1.0, 0.0, 0.0)), vec3(0.75, 0.85, 1.0));
}

#[test]
fn decimal_writes_base_ten() {
    assert_eq!(decimal(0), b"0".to_vec());
    assert_eq!(decimal(7), b"7".to_vec());
    assert_eq!(decimal(10), b"10".to_vec());
    assert_eq!(decimal(255), b"255".to_vec());
    assert_eq!(decimal(1920), b"1920".to_vec());
    assert_eq!(decimal(u64::MAX), b"18446744073709551615".to_vec());
}

#[test]
fn the_header_names_the_size() {
    let s = Scene::new(camera(640, 480, 1, 1), Group::<f64, Patch>::new(vec![]), sky());
    assert_eq!(s.write_image_header(), [b"P".as_slice(), b"3\n640 480\n255\n"].concat());
    let t = Scene::new(camera(1, 0, 1, 1), Group::<f64, Patch>::new(vec![]), sky());
    assert_eq!(t.write_image_header(), [b"P".as_slice(), b"3\n1 0\n255\n"].concat());
}

#[test]
fn a_pixel_is_a_line_of_three_numbers() {
    let s = Scene::new(camera(2, 2, 1, 1), Group::<f64, Patch>::new(vec![]), sky());
    assert_eq!(s.write_pixel((80, 114, 140)), b"80 114 140\n".to_vec());
    assert_eq!(s.write_pixel((0, 0, 0)), b"0 0 0\n".to_vec());
    assert_eq!(s.write_pixel((255, 9, 10)), b"255 9 10\n".to_vec());
}
