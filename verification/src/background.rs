//! What a ray sees that meets nothing.
use vstd::prelude::*;
use vstd::std_specs::ops::{AddSpec, SubSpec, MulSpec, DivSpec};
use crate::math::{Vector, sum, scaled};
use crate::scalar::{Scalar, total, lawful, small};

verus! {

/// The light that comes from far away.
pub trait Background<T: Scalar> {
    /// The colour seen along the direction `dir`, a vector of length one.
    fn sample_bg(&self, dir: &Vector<T, 3>) -> (c: Vector<T, 3>)
        requires
            total::<T>(),
    ;
}

/// A sky that shades from `bottom`, straight down, to `top`, straight up.
pub struct Gradient<T> {
    top: Vector<T, 3>,
    bottom: Vector<T, 3>,
}

/// How far up the direction points, from zero for straight down to one for
/// straight up: `(y + 1) / 2`.
pub open spec fn height<T: Scalar>(dir: Seq<T>) -> T {
    small::<T>(1).div_spec(small::<T>(2)).mul_spec(dir[1].add_spec(small::<T>(1)))
}

/// The colour of the sky along `dir`: `(1 - a) bottom + a top` for the
/// height `a` of the direction.
pub open spec fn blend<T: Scalar>(top: Seq<T>, bottom: Seq<T>, dir: Seq<T>) -> Seq<T> {
    let a = height(dir);
    sum(scaled(bottom, small::<T>(1).sub_spec(a)), scaled(top, a))
}

impl<T: Scalar> Gradient<T> {
    /// The colour straight up.
    pub closed spec fn top(&self) -> Seq<T> {
        self.top@
    }

    /// The colour straight down.
    pub closed spec fn bottom(&self) -> Seq<T> {
        self.bottom@
    }

    /// The sky that shades from `bottom` to `top`.
    pub fn new(top: Vector<T, 3>, bottom: Vector<T, 3>) -> (g: Self)
        ensures
            g.top() == top@,
            g.bottom() == bottom@,
    {
        Gradient { top, bottom }
    }
}

impl<T: Scalar> Background<T> for Gradient<T> {
    /// The blend of the two colours for the height of the direction.
    fn sample_bg(&self, dir: &Vector<T, 3>) -> (c: Vector<T, 3>)
        ensures
            lawful::<T>() ==> c@ == blend(self.top(), self.bottom(), dir@),
    {
        let a: T = (T::from(1u8) / T::from(2u8)) * (dir.y() + T::from(1u8));
        self.bottom * (T::from(1u8) - a) + self.top * a
    }
}

} // verus!
