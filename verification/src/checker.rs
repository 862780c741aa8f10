//! A chequered colouring of space.
use vstd::prelude::*;
use vstd::std_specs::ops::{MulSpec, DivSpec};
use crate::math::Vector;
use crate::scalar::{Scalar, total, lawful, small};
use crate::solid_color::SolidColor;
use crate::texture::Texture;

verus! {

/// Cubes of side `scale`, coloured in turn by `even` and by `odd`.
pub struct Checker<T, E, O> {
    inv_scale: T,
    even: E,
    odd: O,
}

/// Whether the cube with these whole-numbered coordinates is an even one:
/// whether their sum is even.
pub open spec fn even_cell(x: int, y: int, z: int) -> bool {
    (x + y + z) % 2 == 0
}

/// Whether the cube with these coordinates is an even one.
pub fn is_even_cell(x: i32, y: i32, z: i32) -> (b: bool)
    ensures
        b == even_cell(x as int, y as int, z as int),
{
    let s: i64 = x as i64 + y as i64 + z as i64;
    let r: i64 = s % 2;
    r == 0
}

impl<T: Scalar> Checker<T, SolidColor<T>, SolidColor<T>> {
    /// Cubes of two colours.
    pub fn solid(scale: T, even: Vector<T, 3>, odd: Vector<T, 3>) -> (c: Self)
        requires
            total::<T>(),
        ensures
            lawful::<T>() ==> c.shrink() == small::<T>(1).div_spec(scale),
            c.parts() == (SolidColor(even), SolidColor(odd)),
    {
        Checker { inv_scale: T::from(1u8) / scale, even: SolidColor(even), odd: SolidColor(odd) }
    }
}

impl<T: Scalar, E: Texture<T>, O: Texture<T>> Checker<T, E, O> {
    /// One over the side of a cube.
    pub closed spec fn shrink(&self) -> T {
        self.inv_scale
    }

    /// The two colourings.
    pub closed spec fn parts(&self) -> (E, O) {
        (self.even, self.odd)
    }

    /// Cubes of side `scale` coloured by `even` and `odd`.
    pub fn new(scale: T, even: E, odd: O) -> (c: Self)
        requires
            total::<T>(),
        ensures
            lawful::<T>() ==> c.shrink() == small::<T>(1).div_spec(scale),
            c.parts() == (even, odd),
    {
        Checker { inv_scale: T::from(1u8) / scale, even, odd }
    }

    /// The colour at the point `p`. `floor` gives the whole number at or
    /// below a scalar. The point's cube is found by scaling each of its
    /// coordinates and taking the whole number below; an even cube has the
    /// colour of `even` and an odd one that of `odd`, each asked at `uv`
    /// and `p`.
    pub fn sample_tex<F: Fn(T) -> i32>(&self, uv: &Vector<T, 2>, p: &Vector<T, 3>, floor: &F) -> (c:
        Vector<T, 3>)
        requires
            total::<T>(),
            forall|x: T| call_requires(*floor, (x,)),
        ensures
            lawful::<T>() ==> exists|x: i32, y: i32, z: i32|
                #![trigger even_cell(x as int, y as int, z as int)]
                {
                    &&& call_ensures(*floor, (self.shrink().mul_spec(p@[0]),), x)
                    &&& call_ensures(*floor, (self.shrink().mul_spec(p@[1]),), y)
                    &&& call_ensures(*floor, (self.shrink().mul_spec(p@[2]),), z)
                    &&& if even_cell(x as int, y as int, z as int) {
                        call_ensures(E::sample_tex, (&self.parts().0, uv, p), c)
                    } else {
                        call_ensures(O::sample_tex, (&self.parts().1, uv, p), c)
                    }
                },
    {
        let x: i32 = floor(self.inv_scale * p.x());
        let y: i32 = floor(self.inv_scale * p.y());
        let z: i32 = floor(self.inv_scale * p.z());
        let c = if is_even_cell(x, y, z) {
            self.even.sample_tex(uv, p)
        } else {
            self.odd.sample_tex(uv, p)
        };
        proof {
            if lawful::<T>() {
                assert(call_ensures(*floor, (self.shrink().mul_spec(p@[0]),), x));
            }
        }
        c
    }
}

} // verus!
