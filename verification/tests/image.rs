use yarr::image::{Image, ImageError};
use yarr::math::Vector;

fn grey(v: f64) -> Vector<f64, 3> {
    Vector::<f64, 3>::new(v, v, v)
}

#[test]
fn load_accepts_a_full_raster() {
    let img = Image::load(2, 3, (0..6).map(|i| grey(i as f64)).collect()).unwrap();
    assert_eq!(img.width(), 2);
    assert_eq!(img.height(), 3);
}

#[test]
fn load_rejects_empty_dimensions() {
    assert_eq!(Image::<f64>::load(0, 3, vec![]).err(), Some(ImageError::Empty));
    assert_eq!(Image::<f64>::load(3, 0, vec![]).err(), Some(ImageError::Empty));
    assert_eq!(Image::<f64>::load(0, 0, vec![grey(1.0)]).err(), Some(ImageError::Empty));
}

#[test]
fn load_rejects_a_wrong_texel_count() {
    assert_eq!(Image::load(2, 2, vec![grey(0.0); 3]).err(), Some(ImageError::Length));
    assert_eq!(Image::load(2, 2, vec![grey(0.0); 5]).err(), Some(ImageError::Length));
}

#[test]
fn texel_is_row_major() {
    let img = Image::load(3, 2, (0..6).map(|i| grey(i as f64)).collect()).unwrap();
    assert_eq!(img.texel(0, 0), grey(0.0));
    assert_eq!(img.texel(2, 0), grey(2.0));
    assert_eq!(img.texel(0, 1), grey(3.0));
    assert_eq!(img.texel(1, 1), grey(4.0));
}

#[test]
fn texel_clamps_to_the_last_row_and_column() {
    let img = Image::load(3, 2, (0..6).map(|i| grey(i as f64)).collect()).unwrap();
    assert_eq!(img.texel(3, 0), grey(2.0));
    assert_eq!(img.texel(u32::MAX, 0), grey(2.0));
    assert_eq!(img.texel(1, 2), grey(4.0));
    assert_eq!(img.texel(u32::MAX, u32::MAX), grey(5.0));
}
