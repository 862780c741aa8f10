//! What a ray finds where it meets a surface, and what every shape offers
//! to the renderer.
use vstd::prelude::*;
use vstd::std_specs::ops::NegSpec;
use crate::aabb::AABB;
use crate::interval::Interval;
use crate::math::{Vector, inner, negated};
use crate::ray::Ray;
use crate::scalar::{Scalar, total, lawful, small, below};

verus! {

/// The meeting of a ray with a surface: where along the ray, at which
/// point, with which normal and surface coordinates, and what the surface is
/// made of.
pub struct Hit<T, M> {
    pub t: T,
    pub p: Vector<T, 3>,
    pub normal: Vector<T, 3>,
    pub front_face: bool,
    pub uv: Vector<T, 2>,
    pub mat: M,
}

/// Whether a ray along `direction` meets a surface from outside, given the
/// normal that points out of it.
pub open spec fn faces<T: Scalar>(direction: Seq<T>, outward_normal: Seq<T>) -> bool {
    below(inner(direction, outward_normal, 3), small::<T>(0))
}

impl<T: Scalar, M> Hit<T, M> {
    /// The record of a hit at parameter `t` and point `p` of the ray `r`.
    /// The normal kept is the one that points against the ray: the outward
    /// normal where the ray comes from outside, its opposite where not.
    pub fn new(
        t: T,
        p: Vector<T, 3>,
        r: &Ray<T>,
        outward_normal: Vector<T, 3>,
        uv: Vector<T, 2>,
        mat: M,
    ) -> (h: Self)
        requires
            total::<T>(),
        ensures
            h.t == t,
            h.p == p,
            h.uv == uv,
            h.mat == mat,
            lawful::<T>() ==> h.front_face == faces(r.direction@, outward_normal@),
            lawful::<T>() ==> h.normal@ == (if h.front_face {
                outward_normal@
            } else {
                negated(outward_normal@)
            }),
    {
        let front_face = r.direction.dot(&outward_normal) < T::from(0u8);
        let mut normal = outward_normal;
        if !front_face {
            normal.negate();
        }
        Hit { t, p, normal, front_face, uv, mat }
    }
}

/// A shape that rays can meet.
pub trait Object<T: Scalar> {
    /// What the shape's surface refers to for its shading.
    type Mat;

    /// The hit of `r` on this shape at a parameter inside `ray_t`, if there
    /// is one.
    fn hit(&self, r: &Ray<T>, ray_t: &Interval<T>) -> (h: Option<Hit<T, Self::Mat>>)
        requires
            total::<T>(),
    ;

    /// A box that holds the shape.
    fn bbox(&self) -> (b: &AABB<T>)
    ;
}

/// The upper end that a search goes on with: the parameter of the hit found
/// so far, or `top` while there is none.
pub open spec fn reach<T, M>(found: Option<Hit<T, M>>, top: T) -> T {
    match found {
        Some(h) => h.t,
        None => top,
    }
}

} // verus!
