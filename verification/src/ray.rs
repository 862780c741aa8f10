//! Rays: half-lines in space, each with the moment of the shutter at which it
//! travels.
use vstd::prelude::*;
use vstd::std_specs::ops::{AddSpec, MulSpec};
use crate::math::{Vector, sum, scaled};
use crate::scalar::{Scalar, total, lawful};

verus! {

/// The points `origin + s * direction`, at shutter time `time`.
#[derive(Debug, Clone, Copy)]
pub struct Ray<T> {
    pub direction: Vector<T, 3>,
    pub origin: Vector<T, 3>,
    pub time: T,
}

impl<T: Scalar> Ray<T> {
    /// The ray from `origin` along `direction` at shutter time `time`.
    pub fn new(origin: Vector<T, 3>, direction: Vector<T, 3>, time: T) -> (r: Self)
        ensures
            r.origin == origin,
            r.direction == direction,
            r.time == time,
    {
        Ray { origin, direction, time }
    }

    /// The point of the ray at parameter `t`.
    pub open spec fn at_spec(self, t: T) -> Seq<T> {
        sum(self.origin@, scaled(self.direction@, t))
    }

    /// The point of the ray at parameter `t`: `origin + t * direction`.
    pub fn at(&self, t: T) -> (p: Vector<T, 3>)
        requires
            total::<T>(),
        ensures
            lawful::<T>() ==> p@ == self.at_spec(t),
    {
        self.origin + self.direction * t
    }
}

} // verus!
