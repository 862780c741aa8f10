use yarr::loader::{
    material_reference, same, texture_reference, BackgroundKind, MaterialKind, ObjectKind,
    Reference, TextureKind,
};

#[test]
fn same_compares_byte_for_byte() {
    assert!(same(b"", b""));
    assert!(same(b"Sphere", b"Sphere"));
    assert!(!same(b"Sphere", b"Spherf"));
    assert!(!same(b"Sphere", b"Spher"));
    assert!(!same(b"Sphere", b"Spheres"));
    assert!(!same(b"sphere", b"Sphere"));
}

#[test]
fn shapes_by_name() {
    assert_eq!(ObjectKind::of(b"Group"), Some(ObjectKind::Group));
    assert_eq!(ObjectKind::of(b"BVH"), Some(ObjectKind::BVH));
    assert_eq!(ObjectKind::of(b"Sphere"), Some(ObjectKind::Sphere));
    assert_eq!(ObjectKind::of(b"Quad"), Some(ObjectKind::Quad));
    assert_eq!(ObjectKind::of(b"Box"), Some(ObjectKind::Box));
    assert_eq!(ObjectKind::of(b"Translate"), Some(ObjectKind::Translate));
    assert_eq!(ObjectKind::of(b"RotateY"), Some(ObjectKind::RotateY));
    assert_eq!(ObjectKind::of(b"ConstantMedium"), Some(ObjectKind::ConstantMedium));
    assert_eq!(ObjectKind::of(b"sphere"), None);
    assert_eq!(ObjectKind::of(b"Cylinder"), None);
    assert_eq!(ObjectKind::of(b""), None);
    assert_eq!(ObjectKind::of(b"Sphere "), None);
}

#[test]
fn textures_by_name() {
    assert_eq!(TextureKind::of(b"Solid"), Some(TextureKind::Solid));
    assert_eq!(TextureKind::of(b"Checker"), Some(TextureKind::Checker));
    assert_eq!(TextureKind::of(b"Image"), Some(TextureKind::Image));
    assert_eq!(TextureKind::of(b"Noise"), Some(TextureKind::Noise));
    assert_eq!(TextureKind::of(b"Gradient"), None);
    assert_eq!(TextureKind::of(b"marble"), None);
}

#[test]
fn materials_by_name() {
    assert_eq!(MaterialKind::of(b"Lambertian"), Some(MaterialKind::Lambertian));
    assert_eq!(MaterialKind::of(b"Metal"), Some(MaterialKind::Metal));
    assert_eq!(MaterialKind::of(b"Dielectric"), Some(MaterialKind::Dielectric));
    assert_eq!(MaterialKind::of(b"DiffuseLight"), Some(MaterialKind::DiffuseLight));
    assert_eq!(MaterialKind::of(b"Isotropic"), None);
    assert_eq!(MaterialKind::of(b"glass"), None);
}

#[test]
fn backgrounds_by_name() {
    assert_eq!(BackgroundKind::of(b"Solid"), Some(BackgroundKind::Solid));
    assert_eq!(BackgroundKind::of(b"Gradient"), Some(BackgroundKind::Gradient));
    assert_eq!(BackgroundKind::of(b"Image"), Some(BackgroundKind::Image));
    assert_eq!(BackgroundKind::of(b"Expression"), Some(BackgroundKind::Expression));
    assert_eq!(BackgroundKind::of(b"Noise"), None);
    assert_eq!(BackgroundKind::of(b"ClearSky"), None);
}

#[test]
fn a_kind_is_defined_on_the_spot_and_any_other_word_is_a_name() {
    assert_eq!(texture_reference(b"Solid"), Reference::Inline(TextureKind::Solid));
    assert_eq!(texture_reference(b"Noise"), Reference::Inline(TextureKind::Noise));
    assert_eq!(texture_reference(b"marble"), Reference::Named);
    assert_eq!(texture_reference(b"Metal"), Reference::Named);
    assert_eq!(material_reference(b"Metal"), Reference::Inline(MaterialKind::Metal));
    assert_eq!(material_reference(b"glass"), Reference::Named);
    assert_eq!(material_reference(b""), Reference::Named);
}
