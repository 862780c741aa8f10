//! Surfaces that give off light.
use vstd::prelude::*;
use crate::material::{Material, Scatter};
use crate::math::Vector;
use crate::object::Hit;
use crate::ray::Ray;
use crate::scalar::Scalar;
use crate::solid_color::SolidColor;
use crate::texture::Texture;

verus! {

/// A surface that gives off the colour of its texture and sends no light
/// on.
pub struct DiffuseLight<X> {
    pub tex: X,
}

impl<T: Scalar> DiffuseLight<SolidColor<T>> {
    /// A light of one colour.
    pub fn solid(albedo: Vector<T, 3>) -> (l: Self)
        ensures
            l.tex.0 == albedo,
    {
        DiffuseLight { tex: SolidColor(albedo) }
    }
}

impl<T: Scalar, X: Texture<T>> Material<T> for DiffuseLight<X> {
    /// A light sends nothing on.
    fn scatter(&self, r_in: &Ray<T>, hit: &Hit<T, Self>) -> (s: Option<Scatter<T>>)
        ensures
            s is None,
    {
        None
    }

    /// The colour of the texture at the place hit.
    fn emitted(&self, r_in: &Ray<T>, hit: &Hit<T, Self>) -> (c: Vector<T, 3>)
        ensures
            call_ensures(X::sample_tex, (&self.tex, &hit.uv, &hit.p), c),
    {
        self.tex.sample_tex(&hit.uv, &hit.p)
    }
}

} // verus!
