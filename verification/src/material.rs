//! What a surface does with light.
use vstd::prelude::*;
use crate::math::Vector;
use crate::object::Hit;
use crate::ray::Ray;
use crate::scalar::{Scalar, total};

verus! {

/// Light sent on from a surface: how much of each colour is kept, and the
/// ray along which it goes on.
pub struct Scatter<T> {
    pub att: Vector<T, 3>,
    pub ray: Ray<T>,
}

/// The shading rule of a surface.
pub trait Material<T: Scalar>: Sized {
    /// The light that the surface sends on from a hit of `r_in`, if it sends
    /// any on.
    fn scatter(&self, r_in: &Ray<T>, hit: &Hit<T, Self>) -> (s: Option<Scatter<T>>)
        requires
            total::<T>(),
    ;

    /// The light that the surface gives off by itself at a hit of `r_in`.
    fn emitted(&self, r_in: &Ray<T>, hit: &Hit<T, Self>) -> (c: Vector<T, 3>)
        requires
            total::<T>(),
    ;
}

} // verus!
