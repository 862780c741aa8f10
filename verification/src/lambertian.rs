//! Matt surfaces.
use vstd::prelude::*;
use crate::material::Scatter;
use crate::math::{Vector, sum};
use crate::object::Hit;
use crate::ray::Ray;
use crate::scalar::{Scalar, total, lawful, below, magnitude, epsilon_spec};
use crate::solid_color::SolidColor;
use crate::texture::Texture;

verus! {

/// A surface that sends light on evenly to all sides, coloured by its
/// texture.
pub struct Lambertian<X> {
    pub tex: X,
}

/// The direction in which a matt surface sends light on: the normal plus a
/// random unit vector, or the normal alone where the two cancel to within
/// the tolerance.
pub open spec fn diffuse_direction<T: Scalar>(normal: Seq<T>, random_unit: Seq<T>) -> Seq<T> {
    let d = sum(normal, random_unit);
    if forall|i: int| 0 <= i < 3 ==> below(magnitude(#[trigger] d[i]), epsilon_spec::<T>()) {
        normal
    } else {
        d
    }
}

impl<T: Scalar> Lambertian<SolidColor<T>> {
    /// A matt surface of one colour.
    pub fn solid(albedo: Vector<T, 3>) -> (l: Self)
        ensures
            l.tex.0 == albedo,
    {
        Lambertian { tex: SolidColor(albedo) }
    }
}

impl<X> Lambertian<X> {
    /// The light sent on from `hit`, given a random unit vector. It is
    /// coloured by the texture at the place hit, and the ray sent on starts
    /// there at the shutter time of the ray that came in.
    pub fn scatter<T: Scalar, M>(
        &self,
        r_in: &Ray<T>,
        hit: &Hit<T, M>,
        random_unit: Vector<T, 3>,
    ) -> (s: Scatter<T>) where X: Texture<T>
        requires
            total::<T>(),
        ensures
            call_ensures(X::sample_tex, (&self.tex, &hit.uv, &hit.p), s.att),
            s.ray.origin == hit.p,
            s.ray.time == r_in.time,
            lawful::<T>() ==> s.ray.direction@ == diffuse_direction(hit.normal@, random_unit@),
    {
        let mut scatter_direction = hit.normal + random_unit;
        if scatter_direction.near_zero() {
            scatter_direction = hit.normal;
        }
        Scatter {
            att: self.tex.sample_tex(&hit.uv, &hit.p),
            ray: Ray::new(hit.p, scatter_direction, r_in.time),
        }
    }
}

} // verus!
