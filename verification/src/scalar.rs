//! The scalar the renderer computes with.
//!
//! Every numeric routine of this crate is written once, over any type that
//! offers the four arithmetic operators, negation, an order and a conversion
//! from small integers. The renderer instantiates it with a binary
//! floating-point type; the proofs hold for every instantiation.
//!
//! Two predicates describe a scalar type. [`total`] says that its operators
//! accept every operand, which is what a caller must know before it may hand
//! values to this crate. [`lawful`] says that its operators are functions of
//! their operands, given by the `*_spec` functions of `vstd`; the contracts
//! say what a result is for such a type.
use vstd::prelude::*;
use vstd::std_specs::ops::{AddSpec, SubSpec, MulSpec, DivSpec, NegSpec};
use vstd::std_specs::cmp::{PartialEqSpec, PartialOrdSpec};
use vstd::std_specs::convert::FromSpec;
use core::ops::{Add, Sub, Mul, Div, Neg};

verus! {

/// A number type the renderer can run on.
pub trait Scalar: Copy + PartialOrd + From<u8> + From<u32> + Add<Output = Self> + Sub<
    Output = Self,
> + Mul<Output = Self> + Div<Output = Self> + Neg<Output = Self> {

}

impl<T> Scalar for T where
    T: Copy + PartialOrd + From<u8> + From<u32> + Add<Output = T> + Sub<Output = T> + Mul<
        Output = T,
    > + Div<Output = T> + Neg<Output = T>,
 {

}

/// The operators of `T` accept every operand.
pub open spec fn total<T: Scalar>() -> bool {
    &&& forall|a: T, b: T| #[trigger] a.add_req(b)
    &&& forall|a: T, b: T| #[trigger] a.sub_req(b)
    &&& forall|a: T, b: T| #[trigger] a.mul_req(b)
    &&& forall|a: T, b: T| #[trigger] a.div_req(b)
    &&& forall|a: T| #[trigger] a.neg_req()
}

/// The operators, the order and the conversion of `T` are the functions that
/// their specifications name.
pub open spec fn lawful<T: Scalar>() -> bool {
    &&& T::obeys_add_spec()
    &&& T::obeys_sub_spec()
    &&& T::obeys_mul_spec()
    &&& T::obeys_div_spec()
    &&& T::obeys_neg_spec()
    &&& T::obeys_eq_spec()
    &&& T::obeys_partial_cmp_spec()
    &&& converts::<T>()
}

/// The conversions from integers are the functions that their
/// specifications name.
pub open spec fn converts<T: Scalar>() -> bool {
    <T as FromSpec<u8>>::obeys_from_spec() && <T as FromSpec<u32>>::obeys_from_spec()
}

/// The scalar that stands for the count `n`.
pub open spec fn count<T: Scalar>(n: u32) -> T {
    <T as FromSpec<u32>>::from_spec(n)
}

/// The scalar that stands for the integer `n`.
pub open spec fn small<T: Scalar>(n: u8) -> T {
    <T as FromSpec<u8>>::from_spec(n)
}

/// `a < b` in the order of `T`.
pub open spec fn below<T: Scalar>(a: T, b: T) -> bool {
    a.partial_cmp_spec(&b) == Some(core::cmp::Ordering::Less)
}

/// `a <= b` in the order of `T`.
pub open spec fn at_most<T: Scalar>(a: T, b: T) -> bool {
    a.partial_cmp_spec(&b) == Some(core::cmp::Ordering::Less) || a.partial_cmp_spec(&b) == Some(
        core::cmp::Ordering::Equal,
    )
}

/// `a > b` in the order of `T`.
pub open spec fn above<T: Scalar>(a: T, b: T) -> bool {
    a.partial_cmp_spec(&b) == Some(core::cmp::Ordering::Greater)
}

/// `a >= b` in the order of `T`.
pub open spec fn at_least<T: Scalar>(a: T, b: T) -> bool {
    a.partial_cmp_spec(&b) == Some(core::cmp::Ordering::Greater) || a.partial_cmp_spec(&b) == Some(
        core::cmp::Ordering::Equal,
    )
}

/// The magnitude of `x`: its opposite where it lies below zero, zero where
/// it equals zero, and else `x` itself.
pub open spec fn magnitude<T: Scalar>(x: T) -> T {
    if below(x, small::<T>(0)) {
        x.neg_spec()
    } else if x.eq_spec(&small::<T>(0)) {
        small::<T>(0)
    } else {
        x
    }
}

/// The tolerance under which a component counts as zero: one part in a
/// hundred million.
pub open spec fn epsilon_spec<T: Scalar>() -> T {
    let h = small::<T>(100);
    small::<T>(1).div_spec(h.mul_spec(h).mul_spec(h).mul_spec(h))
}

/// The least thickness a bounding box may have: one part in ten thousand.
pub open spec fn thickness_spec<T: Scalar>() -> T {
    let h = small::<T>(100);
    small::<T>(1).div_spec(h.mul_spec(h))
}

/// The scalar for a small integer.
pub fn from_small<T: Scalar>(n: u8) -> (r: T)
    ensures
        lawful::<T>() ==> r == small::<T>(n),
{
    T::from(n)
}

/// The scalar for a count, such as a number of pixels or of samples.
pub fn from_count<T: Scalar>(n: u32) -> (r: T)
    ensures
        lawful::<T>() ==> r == count::<T>(n),
{
    T::from(n)
}

/// Zero.
pub fn zero<T: Scalar>() -> (r: T)
    ensures
        lawful::<T>() ==> r == small::<T>(0),
{
    T::from(0u8)
}

/// One.
pub fn one<T: Scalar>() -> (r: T)
    ensures
        lawful::<T>() ==> r == small::<T>(1),
{
    T::from(1u8)
}

/// The tolerance for "near zero" tests, `1e-8`.
pub fn epsilon<T: Scalar>() -> (r: T)
    requires
        total::<T>(),
    ensures
        lawful::<T>() ==> r == epsilon_spec::<T>(),
{
    let h: T = T::from(100u8);
    T::from(1u8) / (h * h * h * h)
}

/// The least thickness of a bounding box, `1e-4`.
pub fn thickness<T: Scalar>() -> (r: T)
    requires
        total::<T>(),
    ensures
        lawful::<T>() ==> r == thickness_spec::<T>(),
{
    let h: T = T::from(100u8);
    T::from(1u8) / (h * h)
}

/// The magnitude of `x`.
pub fn abs<T: Scalar>(x: T) -> (r: T)
    requires
        total::<T>(),
    ensures
        lawful::<T>() ==> r == magnitude(x),
{
    let none: T = T::from(0u8);
    if x < none {
        x.neg()
    } else if x == none {
        none
    } else {
        x
    }
}

/// The value that `T` gives for one divided by zero: what bounds an
/// interval that has no end.
pub open spec fn infinity_spec<T: Scalar>() -> T {
    small::<T>(1).div_spec(small::<T>(0))
}

/// Whether `x` is a value that does not even equal itself, as the
/// "not a number" of floating point does not.
pub open spec fn unordered<T: Scalar>(x: T) -> bool {
    !x.eq_spec(&x)
}

/// The lesser of two scalars, passing over one that is not a number: `b`
/// where `a` is none or `b` lies below `a`, else `a`.
pub open spec fn lesser_spec<T: Scalar>(a: T, b: T) -> T {
    if unordered(a) || below(b, a) {
        b
    } else {
        a
    }
}

/// The greater of two scalars, passing over one that is not a number: `b`
/// where `a` is none or `b` lies above `a`, else `a`.
pub open spec fn greater_spec<T: Scalar>(a: T, b: T) -> T {
    if unordered(a) || above(b, a) {
        b
    } else {
        a
    }
}

/// One divided by zero: positive infinity in floating point.
pub fn infinity<T: Scalar>() -> (r: T)
    requires
        total::<T>(),
    ensures
        lawful::<T>() ==> r == infinity_spec::<T>(),
{
    T::from(1u8) / T::from(0u8)
}

/// The lesser of `a` and `b`, passing over one that is not a number.
pub fn lesser<T: Scalar>(a: T, b: T) -> (r: T)
    ensures
        r == a || r == b,
        lawful::<T>() ==> r == lesser_spec(a, b),
{
    if a != a || b < a {
        b
    } else {
        a
    }
}

/// The greater of `a` and `b`, passing over one that is not a number.
pub fn greater<T: Scalar>(a: T, b: T) -> (r: T)
    ensures
        r == a || r == b,
        lawful::<T>() ==> r == greater_spec(a, b),
{
    if a != a || b > a {
        b
    } else {
        a
    }
}

/// The order of `T` is one: what is before something is not after it, and
/// what is at most a second scalar that is at most a third is at most the
/// third, strictly so where either step is strict.
pub open spec fn ordered<T: Scalar>() -> bool {
    &&& forall|a: T, b: T| #[trigger] below(a, b) <==> above(b, a)
    &&& forall|a: T, b: T| #[trigger] level(a, b) <==> level(b, a)
    &&& forall|a: T, b: T, c: T| #[trigger]
        at_most(a, b) && #[trigger] at_most(b, c) ==> at_most(a, c)
    &&& forall|a: T, b: T, c: T| #[trigger] below(a, b) && #[trigger] at_most(b, c) ==> below(a, c)
    &&& forall|a: T, b: T, c: T| #[trigger] at_most(a, b) && #[trigger] below(b, c) ==> below(a, c)
}

/// `a` and `b` stand at the same place in the order.
pub open spec fn level<T: Scalar>(a: T, b: T) -> bool {
    a.partial_cmp_spec(&b) == Some(core::cmp::Ordering::Equal)
}

/// The order tells `a` and `b` apart or puts them level.
pub open spec fn comparable<T: Scalar>(a: T, b: T) -> bool {
    below(a, b) || level(a, b) || above(a, b)
}

/// `a` and `b` are the same scalar or stand level in the order.
pub open spec fn alike<T: Scalar>(a: T, b: T) -> bool {
    a == b || level(a, b)
}

/// The order of `T` is one that compares every two scalars.
pub open spec fn linear<T: Scalar>() -> bool {
    &&& ordered::<T>()
    &&& forall|a: T, b: T| #[trigger] comparable(a, b)
}

/// In a linear order every scalar is level with itself, and of two scalars
/// one is at most the other.
pub proof fn lemma_linear<T: Scalar>(a: T, b: T)
    requires
        linear::<T>(),
    ensures
        at_most(a, a),
        at_most(a, b) || below(b, a),
        !(at_most(a, b) && below(b, a)),
{
    assert(comparable(a, a));
    assert(below(a, a) <==> above(a, a));
    assert(comparable(a, b));
    assert(below(b, a) <==> above(a, b));
    assert(level(a, b) <==> level(b, a));
}

} // verus!
