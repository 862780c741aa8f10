//! What gives a surface its colour from place to place.
use vstd::prelude::*;
use crate::math::Vector;
use crate::scalar::{Scalar, total};

verus! {

/// A colouring of surfaces.
pub trait Texture<T: Scalar> {
    /// The colour at the surface coordinates `uv` of the point `p`.
    fn sample_tex(&self, uv: &Vector<T, 2>, p: &Vector<T, 3>) -> (c: Vector<T, 3>)
        requires
            total::<T>(),
    ;
}

} // verus!
