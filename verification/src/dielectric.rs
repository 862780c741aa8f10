//! Glass, water and the like.
use vstd::prelude::*;
use vstd::std_specs::ops::{AddSpec, SubSpec, MulSpec, DivSpec, NegSpec};
use core::ops::Neg;
use crate::material::Scatter;
use crate::math::{
    Vector, inner, negated, reflect_spec, sum, scaled, refracted_across, refracted_rest,
};
use crate::object::Hit;
use crate::ray::Ray;
use crate::scalar::{Scalar, total, lawful, small, above, lesser, lesser_spec};

verus! {

/// A clear material with this index of refraction.
pub struct Dielectric<T> {
    pub refraction_index: T,
}

/// Schlick's estimate of how much a clear surface mirrors, given the fifth
/// power `fifth` of one minus the cosine: `r0 + (1 - r0) fifth`, where `r0`
/// is the square of `(1 - index) / (1 + index)`.
pub open spec fn schlick<T: Scalar>(refraction_index: T, fifth: T) -> T {
    let r0 = small::<T>(1).sub_spec(refraction_index).div_spec(
        small::<T>(1).add_spec(refraction_index),
    );
    let r0 = r0.mul_spec(r0);
    r0.add_spec(small::<T>(1).sub_spec(r0).mul_spec(fifth))
}

/// Schlick's estimate of how much a clear surface mirrors at this cosine.
/// `powf` raises to a power.
pub fn reflectance<T: Scalar, P: Fn(T, T) -> T>(cosine: T, refraction_index: T, powf: &P) -> (r: T)
    requires
        total::<T>(),
        forall|x: T, y: T| call_requires(*powf, (x, y)),
    ensures
        lawful::<T>() ==> exists|fifth: T|
            {
                &&& #[trigger] call_ensures(
                    *powf,
                    (small::<T>(1).sub_spec(cosine), small::<T>(5)),
                    fifth,
                )
                &&& r == schlick(refraction_index, fifth)
            },
{
    let r0: T = (T::from(1u8) - refraction_index) / (T::from(1u8) + refraction_index);
    let r0: T = r0 * r0;
    let fifth: T = powf(T::from(1u8) - cosine, T::from(5u8));
    let r: T = r0 + (T::from(1u8) - r0) * fifth;
    proof {
        if lawful::<T>() {
            assert(call_ensures(*powf, (small::<T>(1).sub_spec(cosine), small::<T>(5)), fifth));
            assert(r == schlick(refraction_index, fifth));
        }
    }
    r
}

/// The ratio of refractive indices that a ray meets: one over the index
/// where it enters the material, the index where it leaves.
pub open spec fn ratio<T: Scalar>(front_face: bool, refraction_index: T) -> T {
    if front_face {
        small::<T>(1).div_spec(refraction_index)
    } else {
        refraction_index
    }
}

/// The cosine of the angle between a unit direction and the normal it comes
/// against, at most one.
pub open spec fn cosine<T: Scalar>(unit_direction: Seq<T>, normal: Seq<T>) -> T {
    lesser_spec(inner(negated(unit_direction), normal, 3), small::<T>(1))
}

/// Whether the ray must be mirrored because no refracted ray exists: the
/// ratio times the sine, given as the root of one minus the square of the
/// cosine, is above one.
pub open spec fn cannot_refract<T: Scalar>(ri: T, sine: T) -> bool {
    above(ri.mul_spec(sine), small::<T>(1))
}

/// One minus the square of the cosine: what the sine is the root of.
pub open spec fn under_sine<T: Scalar>(unit_direction: Seq<T>, normal: Seq<T>) -> T {
    small::<T>(1).sub_spec(
        cosine(unit_direction, normal).mul_spec(cosine(unit_direction, normal)),
    )
}

/// The sine, the fifth power and the root that a scattering used, taken
/// together. It holds of any three: it only names them.
pub open spec fn found<T>(sine: T, fifth: T, root: T) -> bool {
    true
}

impl<T: Scalar> Dielectric<T> {
    /// `s` has the direction that the material sends light on in, where the
    /// sine of the angle is `sine`, the fifth power for Schlick's estimate
    /// is `fifth`, and `root` is the root taken for a bent ray: mirrored
    /// where no bent ray exists or the estimate is above `chance`, and bent
    /// else.
    pub open spec fn sends<M, S: Fn(T) -> T>(
        &self,
        hit: Hit<T, M>,
        unit_direction: Seq<T>,
        sine: T,
        fifth: T,
        root: T,
        chance: T,
        sqrt: S,
        s: Scatter<T>,
    ) -> bool {
        let ri = ratio(hit.front_face, self.refraction_index);
        if cannot_refract(ri, sine) || above(schlick(ri, fifth), chance) {
            s.ray.direction@ == reflect_spec(unit_direction, hit.normal@)
        } else {
            &&& call_ensures(
                sqrt,
                (refracted_rest(refracted_across(unit_direction, hit.normal@, ri)),),
                root,
            )
            &&& s.ray.direction@ == sum(
                refracted_across(unit_direction, hit.normal@, ri),
                scaled(hit.normal@, root.neg_spec()),
            )
        }
    }

    /// Whether a ray that meets the surface is mirrored rather than bent.
    /// `sine` is the sine of its angle to the normal, `mirrors` how much the
    /// surface mirrors there, and `chance` a number drawn between zero and
    /// one.
    pub fn reflects(ri: T, sine: T, mirrors: T, chance: T) -> (b: bool)
        requires
            total::<T>(),
        ensures
            lawful::<T>() ==> b == (cannot_refract(ri, sine) || above(mirrors, chance)),
    {
        ri * sine > T::from(1u8) || mirrors > chance
    }

    /// The light sent on from `hit`: all of it, mirrored or bent.
    /// `unit_direction` is the direction of the ray that came in, made of
    /// length one; `sqrt` and `powf` give roots and powers; `chance` is a
    /// number drawn between zero and one. The ray sent on has shutter time
    /// zero.
    pub fn scatter<M, S: Fn(T) -> T, P: Fn(T, T) -> T>(
        &self,
        hit: &Hit<T, M>,
        unit_direction: Vector<T, 3>,
        sqrt: &S,
        powf: &P,
        chance: T,
    ) -> (s: Scatter<T>)
        requires
            total::<T>(),
            forall|x: T| call_requires(*sqrt, (x,)),
            forall|x: T, y: T| call_requires(*powf, (x, y)),
        ensures
            s.ray.origin == hit.p,
            lawful::<T>() ==> s.ray.time == small::<T>(0),
            lawful::<T>() ==> s.att@ == seq![small::<T>(1), small::<T>(1), small::<T>(1)],
            lawful::<T>() ==> exists|sine: T, fifth: T, root: T|
                #![trigger found(sine, fifth, root)]
                {
                    &&& found(sine, fifth, root)
                    &&& call_ensures(*sqrt, (under_sine(unit_direction@, hit.normal@),), sine)
                    &&& call_ensures(
                        *powf,
                        (
                            small::<T>(1).sub_spec(cosine(unit_direction@, hit.normal@)),
                            small::<T>(5),
                        ),
                        fifth,
                    )
                    &&& self.sends(*hit, unit_direction@, sine, fifth, root, chance, *sqrt, s)
                },
    {
        let ri: T = if hit.front_face {
            T::from(1u8) / self.refraction_index
        } else {
            self.refraction_index
        };
        let cos_theta: T = lesser(unit_direction.neg().dot(&hit.normal), T::from(1u8));
        let sin_theta: T = sqrt(T::from(1u8) - cos_theta * cos_theta);
        let ghost mut fifth: T = sin_theta;
        let mirrors: T = reflectance(cos_theta, ri, powf);
        proof {
            if lawful::<T>() {
                fifth = choose|fifth: T|
                    {
                        &&& #[trigger] call_ensures(
                            *powf,
                            (small::<T>(1).sub_spec(cos_theta), small::<T>(5)),
                            fifth,
                        )
                        &&& mirrors == schlick(ri, fifth)
                    };
            }
        }
        let ghost mut root: T = sin_theta;
        let direction = if Self::reflects(ri, sin_theta, mirrors, chance) {
            unit_direction.reflect(&hit.normal)
        } else {
            let bent = unit_direction.refract(&hit.normal, ri, sqrt);
            proof {
                if lawful::<T>() {
                    root = choose|root: T|
                        {
                            &&& #[trigger] call_ensures(
                                *sqrt,
                                (refracted_rest(refracted_across(unit_direction@, hit.normal@, ri)),),
                                root,
                            )
                            &&& bent@ == sum(
                                refracted_across(unit_direction@, hit.normal@, ri),
                                scaled(hit.normal@, root.neg_spec()),
                            )
                        };
                }
            }
            bent
        };
        let s = Scatter {
            att: Vector::<T, 3>::new(T::from(1u8), T::from(1u8), T::from(1u8)),
            ray: Ray::new(hit.p, direction, T::from(0u8)),
        };
        proof {
            if lawful::<T>() {
                assert(found(sin_theta, fifth, root));
                assert(call_ensures(*sqrt, (under_sine(unit_direction@, hit.normal@),), sin_theta));
                assert(self.sends(
                    *hit,
                    unit_direction@,
                    sin_theta,
                    fifth,
                    root,
                    chance,
                    *sqrt,
                    s,
                ));
            }
        }
        s
    }
}

} // verus!
