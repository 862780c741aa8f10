//! Polished and brushed metal.
use vstd::prelude::*;
use vstd::std_specs::ops::{AddSpec, MulSpec};
use crate::material::Scatter;
use crate::math::{Vector, sum, scaled, reciprocal, inner, reflect_spec};
use crate::object::Hit;
use crate::ray::Ray;
use crate::scalar::{Scalar, total, lawful, small, at_most};
use crate::solid_color::SolidColor;
use crate::texture::Texture;

verus! {

/// A surface that mirrors light, blurred by `fuzz`.
pub struct Metal<X, T> {
    pub tex: X,
    pub fuzz: T,
}

/// The direction in which metal sends light on: the mirrored direction
/// made of length one, given that length `len`, plus `fuzz` times a random
/// unit vector.
pub open spec fn mirrored<T: Scalar>(
    direction: Seq<T>,
    normal: Seq<T>,
    len: T,
    fuzz: T,
    random_unit: Seq<T>,
) -> Seq<T> {
    sum(scaled(reflect_spec(direction, normal), reciprocal(len)), scaled(random_unit, fuzz))
}

impl<T: Scalar> Metal<SolidColor<T>, T> {
    /// Metal of one colour.
    pub fn solid(albedo: Vector<T, 3>, fuzz: T) -> (m: Self)
        ensures
            m.tex.0 == albedo,
            m.fuzz == fuzz,
    {
        Metal { tex: SolidColor(albedo), fuzz }
    }
}

impl<X, T: Scalar> Metal<X, T> {
    /// `s` is what the metal sends on where the mirrored direction has
    /// length `len`.
    pub open spec fn sends<M>(
        &self,
        r_in: Ray<T>,
        hit: Hit<T, M>,
        random_unit: Seq<T>,
        len: T,
        s: Option<Scatter<T>>,
    ) -> bool where X: Texture<T> {
        let out = mirrored(r_in.direction@, hit.normal@, len, self.fuzz, random_unit);
        if at_most(inner(out, hit.normal@, 3), small::<T>(0)) {
            s is None
        } else {
            s matches Some(on) && on.ray.direction@ == out && on.ray.origin == hit.p && on.ray.time
                == r_in.time && call_ensures(X::sample_tex, (&self.tex, &hit.uv, &hit.p), on.att)
        }
    }

    /// The light sent on from `hit`, given a random unit vector and `sqrt`
    /// for the length of the mirrored direction. None is sent on where the
    /// blurred direction points into the surface: where its product with
    /// the normal is at most zero.
    pub fn scatter<M, S: Fn(T) -> T>(
        &self,
        r_in: &Ray<T>,
        hit: &Hit<T, M>,
        random_unit: Vector<T, 3>,
        sqrt: &S,
    ) -> (s: Option<Scatter<T>>) where X: Texture<T>
        requires
            total::<T>(),
            forall|x: T| call_requires(*sqrt, (x,)),
        ensures
            lawful::<T>() ==> exists|len: T|
                {
                    &&& #[trigger] call_ensures(
                        *sqrt,
                        (
                            inner(
                                reflect_spec(r_in.direction@, hit.normal@),
                                reflect_spec(r_in.direction@, hit.normal@),
                                3,
                            ),
                        ),
                        len,
                    )
                    &&& self.sends(*r_in, *hit, random_unit@, len, s)
                },
    {
        let away = r_in.direction.reflect(&hit.normal);
        let reflected = away.unit(sqrt) + random_unit * self.fuzz;
        if reflected.dot(&hit.normal) <= T::from(0u8) {
            return None;
        }
        Some(
            Scatter {
                att: self.tex.sample_tex(&hit.uv, &hit.p),
                ray: Ray::new(hit.p, reflected, r_in.time),
            },
        )
    }
}

} // verus!
