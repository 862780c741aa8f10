use yarr::checker::{is_even_cell, Checker};
use yarr::image::Image;
use yarr::math::Vector;
use yarr::perlin::{trilinear_interp, wrap, Perlin};
use yarr::solid_color::SolidColor;

type Vec3 = Vector<f64, 3>;
type Vec2 = Vector<f64, 2>;

fn vec3(x: f64, y: f64, z: f64) -> Vec3 {
    Vec3::new(x, y, z)
}

fn floor_i32(x: f64) -> i32 {
    x.floor() as i32
}

fn cut_u32(x: f64) -> u32 {
    x as u32
}

fn cut_i32(x: f64) -> i32 {
    x as i32
}

struct Lcg(u64);

impl Lcg {
    fn next(&mut self) -> f64 {
        self.0 = self.0.wrapping_mul(6364136223846793005).wrapping_add(1442695040888963407);
        ((self.0 >> 11) as f64) / ((1u64 << 53) as f64)
    }
}

fn noise() -> Perlin<f64> {
    let mut rng = Lcg(99);
    let mut g = [vec3(0.0, 0.0, 0.0); 256];
    for v in g.iter_mut() {
        *v = vec3(rng.next() * 2.0 - 1.0, rng.next() * 2.0 - 1.0, rng.next() * 2.0 - 1.0);
    }
    Perlin::new(g)
}

#[test]
fn cells_alternate() {
    assert!(is_even_cell(0, 0, 0));
    assert!(!is_even_cell(1, 0, 0));
    assert!(is_even_cell(1, 1, 0));
    assert!(!is_even_cell(1, 1, 1));
    assert!(!is_even_cell(-1, 0, 0));
    assert!(is_even_cell(-1, -1, 0));
    assert!(!is_even_cell(-3, 1, 1));
    assert!(!is_even_cell(i32::MAX, i32::MAX, i32::MAX));
    assert!(is_even_cell(i32::MIN, i32::MIN, 0));
}

#[test]
fn checker_picks_by_cell() {
    let c = Checker::solid(0.5, vec3(1.0, 1.0, 1.0), vec3(0.0, 0.0, 0.0));
    let uv = Vec2::new(0.0, 0.0);
    assert_eq!(c.sample_tex(&uv, &vec3(0.1, 0.1, 0.1), &floor_i32), vec3(1.0, 1.0, 1.0));
    assert_eq!(c.sample_tex(&uv, &vec3(0.6, 0.1, 0.1), &floor_i32), vec3(0.0, 0.0, 0.0));
    assert_eq!(c.sample_tex(&uv, &vec3(0.6, 0.6, 0.1), &floor_i32), vec3(1.0, 1.0, 1.0));
    assert_eq!(c.sample_tex(&uv, &vec3(-0.1, 0.1, 0.1), &floor_i32), vec3(0.0, 0.0, 0.0));
    assert_eq!(c.sample_tex(&uv, &vec3(-0.6, 0.1, 0.1), &floor_i32), vec3(1.0, 1.0, 1.0));
}

#[test]
fn checker_of_textures() {
    let c = Checker::new(2.0, SolidColor::rgb(0.2, 0.3, 0.1), SolidColor::rgb(0.9, 0.9, 0.9));
    let uv = Vec2::new(0.0, 0.0);
    assert_eq!(c.sample_tex(&uv, &vec3(1.0, 1.0, 1.0), &floor_i32), vec3(0.2, 0.3, 0.1));
    assert_eq!(c.sample_tex(&uv, &vec3(3.0, 1.0, 1.0), &floor_i32), vec3(0.9, 0.9, 0.9));
}

#[test]
fn an_image_is_read_with_v_upwards() {
    let texels = (0..6).map(|k| vec3(k as f64, 0.0, 0.0)).collect();
    let img = Image::load(3, 2, texels).unwrap();
    assert_eq!(img.sample_tex(&Vec2::new(0.0, 1.0), &cut_u32), vec3(0.0, 0.0, 0.0));
    assert_eq!(img.sample_tex(&Vec2::new(0.5, 1.0), &cut_u32), vec3(1.0, 0.0, 0.0));
    assert_eq!(img.sample_tex(&Vec2::new(0.99, 0.99), &cut_u32), vec3(2.0, 0.0, 0.0));
    assert_eq!(img.sample_tex(&Vec2::new(0.0, 0.25), &cut_u32), vec3(3.0, 0.0, 0.0));
    assert_eq!(img.sample_tex(&Vec2::new(0.4, 0.0), &cut_u32), vec3(4.0, 0.0, 0.0));
}

#[test]
fn an_image_is_clamped_at_its_edges() {
    let texels = (0..6).map(|k| vec3(k as f64, 0.0, 0.0)).collect();
    let img = Image::load(3, 2, texels).unwrap();
    assert_eq!(img.sample_tex(&Vec2::new(1.0, 0.0), &cut_u32), vec3(5.0, 0.0, 0.0));
    assert_eq!(img.sample_tex(&Vec2::new(7.0, -3.0), &cut_u32), vec3(5.0, 0.0, 0.0));
    assert_eq!(img.sample_tex(&Vec2::new(-7.0, 3.0), &cut_u32), vec3(0.0, 0.0, 0.0));
}

#[test]
fn wrap_is_the_remainder_by_the_table_length() {
    assert_eq!(wrap(0, 0), 0);
    assert_eq!(wrap(0, 1), 1);
    assert_eq!(wrap(255, 0), 255);
    assert_eq!(wrap(255, 1), 0);
    assert_eq!(wrap(256, 0), 0);
    assert_eq!(wrap(-1, 0), 255);
    assert_eq!(wrap(-1, 1), 0);
    assert_eq!(wrap(-256, 0), 0);
    assert_eq!(wrap(-257, 0), 255);
    assert_eq!(wrap(i32::MAX, 0), 255);
    assert_eq!(wrap(i32::MAX, 1), 0);
    assert_eq!(wrap(i32::MIN, 0), 0);
    for i in [-1000, -3, 7, 123456] {
        for d in 0..2u8 {
            assert_eq!(wrap(i, d), ((i + d as i32) & 255) as usize);
        }
    }
}

#[test]
fn the_tables_are_shuffled_orders_of_all_bytes() {
    let p = noise();
    let mut all_in_order = true;
    for table in [p.perm_x(), p.perm_y(), p.perm_z()] {
        let mut seen = [false; 256];
        for (i, e) in table.iter().enumerate() {
            assert!(!seen[*e as usize]);
            seen[*e as usize] = true;
            all_in_order &= *e as usize == i;
        }
        assert!(seen.iter().all(|s| *s));
    }
    assert!(!all_in_order);
    assert!(p.perm_x() != p.perm_y() || p.perm_y() != p.perm_z());
}

#[test]
fn at_a_corner_the_noise_is_zero() {
    let p = noise();
    for (i, j, k) in [(0, 0, 0), (3, -2, 7), (255, 255, 255), (-1, -1, -1)] {
        assert_eq!(p.noise_at(i, j, k, &vec3(0.0, 0.0, 0.0)), 0.0);
    }
}

#[test]
fn trilinear_interp_of_one_gradient() {
    let mut c = [vec3(0.0, 0.0, 0.0); 8];
    c[0] = vec3(1.0, 0.0, 0.0);
    // Only the corner at the origin has a gradient; at (1/2, 0, 0) its
    // three weights are 1/2, 1 and 1, and its gradient times the line from
    // it is 1/2.
    assert_eq!(trilinear_interp(&c, &vec3(0.5, 0.0, 0.0)), 0.25);
    c[0] = vec3(0.0, 0.0, 0.0);
    c[7] = vec3(0.0, 0.0, 2.0);
    // The corner at (1, 1, 1) seen from (1, 1, 1/2).
    assert_eq!(trilinear_interp(&c, &vec3(1.0, 1.0, 0.5)), 0.5 * 2.0 * -0.5);
}

#[test]
fn noise_is_continuous_across_cells_and_bounded() {
    let p = noise();
    let mut rng = Lcg(5);
    for _ in 0..2000 {
        let at = vec3(rng.next() * 40.0 - 20.0, rng.next() * 40.0 - 20.0, rng.next() * 40.0 - 20.0);
        let n = p.noise(&at, &f64::floor, &cut_i32);
        assert!(n.abs() <= 2.0);
        let near = at + vec3(1e-9, -1e-9, 1e-9);
        assert!((p.noise(&near, &f64::floor, &cut_i32) - n).abs() < 1e-6);
    }
    let left = p.noise(&vec3(2.0 - 1e-12, 0.3, 0.3), &f64::floor, &cut_i32);
    let right = p.noise(&vec3(2.0 + 1e-12, 0.3, 0.3), &f64::floor, &cut_i32);
    assert!((left - right).abs() < 1e-9);
}

#[test]
fn noise_is_what_noise_at_gives_for_the_cell() {
    let p = noise();
    let at = vec3(3.25, -1.5, 0.75);
    assert_eq!(p.noise(&at, &f64::floor, &cut_i32), p.noise_at(3, -2, 0, &vec3(0.25, 0.5, 0.75)));
}

#[test]
fn turbulence_adds_octaves() {
    let p = noise();
    let at = vec3(0.3, 1.7, -2.2);
    let n = |v: Vec3| p.noise(&v, &f64::floor, &cut_i32);
    assert_eq!(p.turb(&at, 0, &f64::floor, &cut_i32), 0.0);
    assert_eq!(p.turb(&at, -3, &f64::floor, &cut_i32), 0.0);
    assert_eq!(p.turb(&at, 1, &f64::floor, &cut_i32), n(at).abs());
    let three = n(at) + 0.5 * n(at * 2.0) + 0.25 * n(at * 4.0);
    assert_eq!(p.turb(&at, 3, &f64::floor, &cut_i32), three.abs());
}
