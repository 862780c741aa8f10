//! One colour everywhere.
use vstd::prelude::*;
use crate::background::Background;
use crate::math::Vector;
use crate::scalar::Scalar;
use crate::texture::Texture;

verus! {

/// The colouring that gives the same colour everywhere.
#[derive(Debug, Clone, Copy)]
pub struct SolidColor<T>(pub Vector<T, 3>);

impl<T: Scalar> SolidColor<T> {
    /// The colouring with these three channels.
    pub fn rgb(r: T, g: T, b: T) -> (s: Self)
        ensures
            s.0@ == seq![r, g, b],
    {
        SolidColor(Vector::<T, 3>::new(r, g, b))
    }
}

impl<T: Scalar> Texture<T> for SolidColor<T> {
    /// The colour, whatever the place.
    fn sample_tex(&self, _uv: &Vector<T, 2>, _p: &Vector<T, 3>) -> (c: Vector<T, 3>)
        ensures
            c == self.0,
    {
        self.0
    }
}

impl<T: Scalar> Background<T> for SolidColor<T> {
    /// The colour, whatever the direction.
    fn sample_bg(&self, _dir: &Vector<T, 3>) -> (c: Vector<T, 3>)
        ensures
            c == self.0,
    {
        self.0
    }
}

} // verus!
