//! The words of a scene file: what kinds of things it may name, and when a
//! name stands for something defined elsewhere in the file.
//!
//! Words come as the bytes of their text.
use vstd::prelude::*;

verus! {

/// Whether two texts are the same, byte for byte.
pub fn same(a: &[u8], b: &[u8]) -> (r: bool)
    ensures
        r == (a@ == b@),
{
    if a.len() != b.len() {
        return false;
    }
    let mut i: usize = 0;
    while i < a.len()
        invariant
            0 <= i <= a.len(),
            a@.len() == b@.len(),
            forall|k: int| 0 <= k < i ==> a@[k] == b@[k],
        decreases a.len() - i,
    {
        if a[i] != b[i] {
            return false;
        }
        i += 1;
    }
    assert(a@ =~= b@);
    true
}

/// The word `Group`.
pub open spec fn group_word() -> Seq<u8> {
    seq![71u8, 114, 111, 117, 112]
}

/// The word `BVH`.
pub open spec fn bvh_word() -> Seq<u8> {
    seq![66u8, 86, 72]
}

/// The word `Sphere`.
pub open spec fn sphere_word() -> Seq<u8> {
    seq![83u8, 112, 104, 101, 114, 101]
}

/// The word `Quad`.
pub open spec fn quad_word() -> Seq<u8> {
    seq![81u8, 117, 97, 100]
}

/// The word `Box`.
pub open spec fn box_word() -> Seq<u8> {
    seq![66u8, 111, 120]
}

/// The word `Translate`.
pub open spec fn translate_word() -> Seq<u8> {
    seq![84u8, 114, 97, 110, 115, 108, 97, 116, 101]
}

/// The word `RotateY`.
pub open spec fn rotate_y_word() -> Seq<u8> {
    seq![82u8, 111, 116, 97, 116, 101, 89]
}

/// The word `ConstantMedium`.
pub open spec fn constant_medium_word() -> Seq<u8> {
    seq![67u8, 111, 110, 115, 116, 97, 110, 116, 77, 101, 100, 105, 117, 109]
}

/// The word `Solid`.
pub open spec fn solid_word() -> Seq<u8> {
    seq![83u8, 111, 108, 105, 100]
}

/// The word `Checker`.
pub open spec fn checker_word() -> Seq<u8> {
    seq![67u8, 104, 101, 99, 107, 101, 114]
}

/// The word `Image`.
pub open spec fn image_word() -> Seq<u8> {
    seq![73u8, 109, 97, 103, 101]
}

/// The word `Noise`.
pub open spec fn noise_word() -> Seq<u8> {
    seq![78u8, 111, 105, 115, 101]
}

/// The word `Lambertian`.
pub open spec fn lambertian_word() -> Seq<u8> {
    seq![76u8, 97, 109, 98, 101, 114, 116, 105, 97, 110]
}

/// The word `Metal`.
pub open spec fn metal_word() -> Seq<u8> {
    seq![77u8, 101, 116, 97, 108]
}

/// The word `Dielectric`.
pub open spec fn dielectric_word() -> Seq<u8> {
    seq![68u8, 105, 101, 108, 101, 99, 116, 114, 105, 99]
}

/// The word `DiffuseLight`.
pub open spec fn diffuse_light_word() -> Seq<u8> {
    seq![68u8, 105, 102, 102, 117, 115, 101, 76, 105, 103, 104, 116]
}

/// The word `Gradient`.
pub open spec fn gradient_word() -> Seq<u8> {
    seq![71u8, 114, 97, 100, 105, 101, 110, 116]
}

/// The word `Expression`.
pub open spec fn expression_word() -> Seq<u8> {
    seq![69u8, 120, 112, 114, 101, 115, 115, 105, 111, 110]
}

/// The kinds of shape that a scene file may name.
#[derive(Debug, Clone, Copy, PartialEq, Eq)]
pub enum ObjectKind {
    Group,
    BVH,
    Sphere,
    Quad,
    Box,
    Translate,
    RotateY,
    ConstantMedium,
}

impl ObjectKind {
    /// The kind of shape that `tag` names, if it names one.
    pub open spec fn of_spec(tag: Seq<u8>) -> Option<ObjectKind> {
        if tag == group_word() {
            Some(ObjectKind::Group)
        } else if tag == bvh_word() {
            Some(ObjectKind::BVH)
        } else if tag == sphere_word() {
            Some(ObjectKind::Sphere)
        } else if tag == quad_word() {
            Some(ObjectKind::Quad)
        } else if tag == box_word() {
            Some(ObjectKind::Box)
        } else if tag == translate_word() {
            Some(ObjectKind::Translate)
        } else if tag == rotate_y_word() {
            Some(ObjectKind::RotateY)
        } else if tag == constant_medium_word() {
            Some(ObjectKind::ConstantMedium)
        } else {
            None
        }
    }

    /// The kind of shape that `tag` names, if it names one.
    pub fn of(tag: &[u8]) -> (kind: Option<ObjectKind>)
        ensures
            kind == Self::of_spec(tag@),
    {
        if same(tag, &[71u8, 114, 111, 117, 112]) {
            Some(ObjectKind::Group)
        } else if same(tag, &[66u8, 86, 72]) {
            Some(ObjectKind::BVH)
        } else if same(tag, &[83u8, 112, 104, 101, 114, 101]) {
            Some(ObjectKind::Sphere)
        } else if same(tag, &[81u8, 117, 97, 100]) {
            Some(ObjectKind::Quad)
        } else if same(tag, &[66u8, 111, 120]) {
            Some(ObjectKind::Box)
        } else if same(tag, &[84u8, 114, 97, 110, 115, 108, 97, 116, 101]) {
            Some(ObjectKind::Translate)
        } else if same(tag, &[82u8, 111, 116, 97, 116, 101, 89]) {
            Some(ObjectKind::RotateY)
        } else if same(tag, &[67u8, 111, 110, 115, 116, 97, 110, 116, 77, 101, 100, 105, 117, 109]) {
            Some(ObjectKind::ConstantMedium)
        } else {
            None
        }
    }
}

/// The kinds of texture that a scene file may name.
#[derive(Debug, Clone, Copy, PartialEq, Eq)]
pub enum TextureKind {
    Solid,
    Checker,
    Image,
    Noise,
}

impl TextureKind {
    /// The kind of texture that `tag` names, if it names one.
    pub open spec fn of_spec(tag: Seq<u8>) -> Option<TextureKind> {
        if tag == solid_word() {
            Some(TextureKind::Solid)
        } else if tag == checker_word() {
            Some(TextureKind::Checker)
        } else if tag == image_word() {
            Some(TextureKind::Image)
        } else if tag == noise_word() {
            Some(TextureKind::Noise)
        } else {
            None
        }
    }

    /// The kind of texture that `tag` names, if it names one.
    pub fn of(tag: &[u8]) -> (kind: Option<TextureKind>)
        ensures
            kind == Self::of_spec(tag@),
    {
        if same(tag, &[83u8, 111, 108, 105, 100]) {
            Some(TextureKind::Solid)
        } else if same(tag, &[67u8, 104, 101, 99, 107, 101, 114]) {
            Some(TextureKind::Checker)
        } else if same(tag, &[73u8, 109, 97, 103, 101]) {
            Some(TextureKind::Image)
        } else if same(tag, &[78u8, 111, 105, 115, 101]) {
            Some(TextureKind::Noise)
        } else {
            None
        }
    }
}

/// The kinds of material that a scene file may name.
#[derive(Debug, Clone, Copy, PartialEq, Eq)]
pub enum MaterialKind {
    Lambertian,
    Metal,
    Dielectric,
    DiffuseLight,
}

impl MaterialKind {
    /// The kind of material that `tag` names, if it names one.
    pub open spec fn of_spec(tag: Seq<u8>) -> Option<MaterialKind> {
        if tag == lambertian_word() {
            Some(MaterialKind::Lambertian)
        } else if tag == metal_word() {
            Some(MaterialKind::Metal)
        } else if tag == dielectric_word() {
            Some(MaterialKind::Dielectric)
        } else if tag == diffuse_light_word() {
            Some(MaterialKind::DiffuseLight)
        } else {
            None
        }
    }

    /// The kind of material that `tag` names, if it names one.
    pub fn of(tag: &[u8]) -> (kind: Option<MaterialKind>)
        ensures
            kind == Self::of_spec(tag@),
    {
        if same(tag, &[76u8, 97, 109, 98, 101, 114, 116, 105, 97, 110]) {
            Some(MaterialKind::Lambertian)
        } else if same(tag, &[77u8, 101, 116, 97, 108]) {
            Some(MaterialKind::Metal)
        } else if same(tag, &[68u8, 105, 101, 108, 101, 99, 116, 114, 105, 99]) {
            Some(MaterialKind::Dielectric)
        } else if same(tag, &[68u8, 105, 102, 102, 117, 115, 101, 76, 105, 103, 104, 116]) {
            Some(MaterialKind::DiffuseLight)
        } else {
            None
        }
    }
}

/// The kinds of background that a scene file may name.
#[derive(Debug, Clone, Copy, PartialEq, Eq)]
pub enum BackgroundKind {
    Solid,
    Gradient,
    Image,
    Expression,
}

impl BackgroundKind {
    /// The kind of background that `tag` names, if it names one.
    pub open spec fn of_spec(tag: Seq<u8>) -> Option<BackgroundKind> {
        if tag == solid_word() {
            Some(BackgroundKind::Solid)
        } else if tag == gradient_word() {
            Some(BackgroundKind::Gradient)
        } else if tag == image_word() {
            Some(BackgroundKind::Image)
        } else if tag == expression_word() {
            Some(BackgroundKind::Expression)
        } else {
            None
        }
    }

    /// The kind of background that `tag` names, if it names one.
    pub fn of(tag: &[u8]) -> (kind: Option<BackgroundKind>)
        ensures
            kind == Self::of_spec(tag@),
    {
        if same(tag, &[83u8, 111, 108, 105, 100]) {
            Some(BackgroundKind::Solid)
        } else if same(tag, &[71u8, 114, 97, 100, 105, 101, 110, 116]) {
            Some(BackgroundKind::Gradient)
        } else if same(tag, &[73u8, 109, 97, 103, 101]) {
            Some(BackgroundKind::Image)
        } else if same(tag, &[69u8, 120, 112, 114, 101, 115, 115, 105, 111, 110]) {
            Some(BackgroundKind::Expression)
        } else {
            None
        }
    }
}

/// What a node that refers to a texture or a material means by its first
/// word.
#[derive(Debug, Clone, Copy, PartialEq, Eq)]
pub enum Reference<K> {
    /// The word names a kind: the node defines the thing on the spot.
    Inline(K),
    /// The word is the name of a thing defined elsewhere in the file.
    Named,
}

/// What a node refers to as its texture: one defined on the spot where its
/// first word names a kind of texture, else the texture of that name.
pub fn texture_reference(tag: &[u8]) -> (r: Reference<TextureKind>)
    ensures
        r == (match TextureKind::of_spec(tag@) {
            Some(kind) => Reference::Inline(kind),
            None => Reference::Named,
        }),
{
    match TextureKind::of(tag) {
        Some(kind) => Reference::Inline(kind),
        None => Reference::Named,
    }
}

/// What a node refers to as its material: one defined on the spot where its
/// first word names a kind of material, else the material of that name.
pub fn material_reference(tag: &[u8]) -> (r: Reference<MaterialKind>)
    ensures
        r == (match MaterialKind::of_spec(tag@) {
            Some(kind) => Reference::Inline(kind),
            None => Reference::Named,
        }),
{
    match MaterialKind::of(tag) {
        Some(kind) => Reference::Inline(kind),
        None => Reference::Named,
    }
}

} // verus!
