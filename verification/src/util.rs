//! Small numeric helpers.
use vstd::prelude::*;
use vstd::std_specs::ops::{AddSpec, SubSpec, MulSpec, DivSpec, NegSpec};
use core::ops::Neg;
use crate::math::Vector;
use crate::scalar::{Scalar, total, lawful, small, above};

verus! {

/// The scalar a fraction `random` of the way from `min` to `max`.
pub open spec fn between<T: Scalar>(min: T, max: T, random: T) -> T {
    min.add_spec(max.sub_spec(min).mul_spec(random))
}

/// A scalar from `min` up to, but not to, `max`, given a number `random`
/// drawn from zero up to, but not to, one.
pub fn random_in_range<T: Scalar>(min: T, max: T, random: T) -> (r: T)
    requires
        total::<T>(),
    ensures
        lawful::<T>() ==> r == between(min, max, random),
{
    min + (max - min) * random
}

/// A linear channel made ready for the eye: its root, or zero where it is
/// not above zero. `sqrt` gives the root.
pub fn linear_to_gamma<T: Scalar, S: Fn(T) -> T>(linear_component: T, sqrt: &S) -> (g: T)
    requires
        forall|x: T| call_requires(*sqrt, (x,)),
    ensures
        lawful::<T>() ==> (if above(linear_component, small::<T>(0)) {
            call_ensures(*sqrt, (linear_component,), g)
        } else {
            g == small::<T>(0)
        }),
{
    if linear_component > T::from(0u8) {
        return sqrt(linear_component);
    }
    T::from(0u8)
}

/// The linear channel of one made ready for the eye with exponent `gamma`:
/// its power, or zero where it is not above zero. `powf` raises to a power.
pub fn gamma_to_linear<T: Scalar, P: Fn(T, T) -> T>(gamma_component: T, gamma: T, powf: &P) -> (l: T)
    requires
        forall|x: T, y: T| call_requires(*powf, (x, y)),
    ensures
        lawful::<T>() ==> (if above(gamma_component, small::<T>(0)) {
            call_ensures(*powf, (gamma_component, gamma), l)
        } else {
            l == small::<T>(0)
        }),
{
    if gamma_component > T::from(0u8) {
        return powf(gamma_component, gamma);
    }
    T::from(0u8)
}

/// The surface coordinates of the point `p` of the unit sphere, given the
/// two angles of its direction: `theta` down from straight up turned over,
/// the arc cosine of `-y`, and `phi` around the vertical axis, the arc
/// tangent of `-z` over `x` plus `pi`. They are `phi / (2 pi)` and
/// `theta / pi`.
pub open spec fn sphere_map<T: Scalar>(theta: T, phi_less_pi: T, pi: T) -> Seq<T> {
    seq![
        phi_less_pi.add_spec(pi).div_spec(small::<T>(2).mul_spec(pi)),
        theta.div_spec(pi),
    ]
}

/// The surface coordinates of the point `p` of the unit sphere about the
/// origin. `acos` and `atan2` give the arc cosine and the arc tangent of a
/// quotient, and `pi` is the half turn.
pub fn sphere_uv<T: Scalar, A: Fn(T) -> T, B: Fn(T, T) -> T>(
    p: &Vector<T, 3>,
    acos: &A,
    atan2: &B,
    pi: T,
) -> (uv: Vector<T, 2>)
    requires
        total::<T>(),
        forall|x: T| call_requires(*acos, (x,)),
        forall|x: T, y: T| call_requires(*atan2, (x, y)),
    ensures
        lawful::<T>() ==> exists|theta: T, phi: T|
            #![trigger sphere_map(theta, phi, pi)]
            {
                &&& call_ensures(*acos, (p@[1].neg_spec(),), theta)
                &&& call_ensures(*atan2, (p@[2].neg_spec(), p@[0]), phi)
                &&& uv@ == sphere_map(theta, phi, pi)
            },
{
    let theta: T = acos(p.y().neg());
    let less: T = atan2(p.z().neg(), p.x());
    let phi: T = less + pi;
    let uv = Vector::<T, 2>::new(phi / (T::from(2u8) * pi), theta / pi);
    proof {
        if lawful::<T>() {
            assert(uv@ =~= sphere_map(theta, less, pi));
        }
    }
    uv
}

} // verus!
