//! Volumes of even density, such as smoke: a ray that passes through one
//! may be scattered anywhere along its way inside.
use vstd::prelude::*;
use vstd::std_specs::ops::{AddSpec, SubSpec, MulSpec, DivSpec, NegSpec};
use core::ops::Neg;
use crate::group::answer;
use crate::interval::Interval;
use crate::material::Scatter;
use crate::math::Vector;
use crate::solid_color::SolidColor;
use crate::texture::Texture;
use crate::object::{Hit, Object};
use crate::ray::Ray;
use crate::scalar::{
    Scalar, total, lawful, small, below, at_most, above, infinity_spec, thickness_spec, thickness,
};

verus! {

/// The volume inside `boundary`, scattering as `phase_function` says.
pub struct ConstantMedium<T: Scalar, O: Object<T>, M> {
    pub boundary: O,
    pub phase_function: M,
    neg_inv_density: T,
}

/// Minus one over the density: what the logarithm of a draw is multiplied by
/// to get the distance to the scattering.
pub open spec fn neg_inv<T: Scalar>(density: T) -> T {
    small::<T>(1).neg_spec().div_spec(density)
}

/// The part of the ray inside the volume, as a pair of parameters: from the
/// first crossing `t1` of the boundary to the second `t2`, cut down to
/// `ray_t` and to what lies ahead of the ray's origin. There is none where
/// the cut leaves `t1` beyond `t2`.
pub open spec fn stretch<T: Scalar>(ray_t: Interval<T>, t1: T, t2: T) -> Option<(T, T)> {
    let a = if below(t1, ray_t.min) {
        ray_t.min
    } else {
        t1
    };
    let b = if above(t2, ray_t.max) {
        ray_t.max
    } else {
        t2
    };
    if !at_most(a, b) {
        None
    } else if below(a, small::<T>(0)) {
        Some((small::<T>(0), b))
    } else {
        Some((a, b))
    }
}

/// The parameter at which the ray is scattered inside the stretch from `t1`
/// to `t2`, for a ray whose direction has length `ray_length` and a distance
/// `hit_distance` drawn for the scattering: `t1` plus that distance in
/// units of the direction. There is none where the distance drawn is more
/// than the way inside.
pub open spec fn scattered_at<T: Scalar>(t1: T, t2: T, ray_length: T, hit_distance: T) -> Option<T> {
    if above(hit_distance, t2.sub_spec(t1).mul_spec(ray_length)) {
        None
    } else {
        Some(t1.add_spec(hit_distance.div_spec(ray_length)))
    }
}

/// The record of a scattering at parameter `t` of `r`.
pub open spec fn scattering<T: Scalar, M>(r: Ray<T>, t: T, phase: M, h: Hit<T, M>) -> bool {
    &&& h.t == t
    &&& h.p@ == r.at_spec(t)
    &&& h.uv@ == seq![small::<T>(0), small::<T>(0)]
    &&& h.normal@ == seq![small::<T>(1), small::<T>(0), small::<T>(0)]
    &&& h.front_face
    &&& h.mat == phase
}

impl<T: Scalar, O: Object<T>> ConstantMedium<T, O, Isotropic<SolidColor<T>>> {
    /// The volume inside `boundary` with this density, scattering in one
    /// colour.
    pub fn solid(boundary: O, density: T, color: Vector<T, 3>) -> (m: Self)
        requires
            total::<T>(),
        ensures
            m.shape() == boundary,
            m.phase().0.0 == color,
            lawful::<T>() ==> m.rate() == neg_inv(density),
    {
        ConstantMedium::new(boundary, density, Isotropic::solid(color))
    }
}

impl<T: Scalar, O: Object<T>, M: Copy> ConstantMedium<T, O, M> {
    /// The shape that bounds the volume.
    pub closed spec fn shape(&self) -> O {
        self.boundary
    }

    /// How the volume scatters.
    pub closed spec fn phase(&self) -> M {
        self.phase_function
    }

    /// Minus one over the density.
    pub closed spec fn rate(&self) -> T {
        self.neg_inv_density
    }

    /// The volume inside `boundary` with this density.
    pub fn new(boundary: O, density: T, phase_function: M) -> (m: Self)
        requires
            total::<T>(),
        ensures
            m.shape() == boundary,
            m.phase() == phase_function,
            lawful::<T>() ==> m.rate() == neg_inv(density),
    {
        ConstantMedium {
            boundary,
            neg_inv_density: T::from(1u8).neg() / density,
            phase_function,
        }
    }

    /// The part of the ray inside the volume.
    pub fn clip(ray_t: &Interval<T>, t1: T, t2: T) -> (s: Option<(T, T)>)
        ensures
            lawful::<T>() ==> s == stretch(*ray_t, t1, t2),
    {
        let mut t1 = t1;
        let mut t2 = t2;
        if t1 < ray_t.min {
            t1 = ray_t.min;
        }
        if t2 > ray_t.max {
            t2 = ray_t.max;
        }
        if !(t1 <= t2) {
            return None;
        }
        if t1 < T::from(0u8) {
            t1 = T::from(0u8);
        }
        Some((t1, t2))
    }

    /// Where the ray is scattered inside the stretch from `t1` to `t2`.
    pub fn settle(t1: T, t2: T, ray_length: T, hit_distance: T) -> (t: Option<T>)
        requires
            total::<T>(),
        ensures
            lawful::<T>() ==> t == scattered_at(t1, t2, ray_length, hit_distance),
    {
        let distance_inside_boundary: T = (t2 - t1) * ray_length;
        if hit_distance > distance_inside_boundary {
            None
        } else {
            Some(t1 + hit_distance / ray_length)
        }
    }

    /// What a ray that enters the volume at `t1` and leaves it at `t2` may
    /// end with.
    pub open spec fn inside<F: Fn(&Vector<T, 3>) -> T, D: Fn() -> T>(
        &self,
        r: Ray<T>,
        t1: T,
        t2: T,
        length: F,
        draw: D,
        h: Option<Hit<T, M>>,
    ) -> bool {
        exists|ray_length: T, drawn: T|
            {
                &&& #[trigger] measures(length, draw, r.direction, ray_length, drawn)
                &&& match scattered_at(t1, t2, ray_length, self.rate().mul_spec(drawn)) {
                    None => h is None,
                    Some(t) => h matches Some(out) && scattering(r, t, self.phase(), out),
                }
            }
    }

    /// What a ray that first crosses the boundary at `t` may end with.
    pub open spec fn crosses<F: Fn(&Vector<T, 3>) -> T, D: Fn() -> T>(
        &self,
        r: Ray<T>,
        ray_t: Interval<T>,
        t: T,
        length: F,
        draw: D,
        h: Option<Hit<T, M>>,
    ) -> bool {
        exists|second: Option<Hit<T, O::Mat>>|
            {
                &&& #[trigger] answer(
                    self.shape(),
                    r,
                    t.add_spec(thickness_spec::<T>()),
                    infinity_spec::<T>(),
                    second,
                )
                &&& match second {
                    None => h is None,
                    Some(h2) => match stretch(ray_t, t, h2.t) {
                        None => h is None,
                        Some((t1, t2)) => self.inside(r, t1, t2, length, draw, h),
                    },
                }
            }
    }

    /// What a ray may end with in the volume.
    pub open spec fn passes<F: Fn(&Vector<T, 3>) -> T, D: Fn() -> T>(
        &self,
        r: Ray<T>,
        ray_t: Interval<T>,
        length: F,
        draw: D,
        h: Option<Hit<T, M>>,
    ) -> bool {
        exists|first: Option<Hit<T, O::Mat>>|
            {
                &&& #[trigger] answer(
                    self.shape(),
                    r,
                    infinity_spec::<T>().neg_spec(),
                    infinity_spec::<T>(),
                    first,
                )
                &&& match first {
                    None => h is None,
                    Some(h1) => self.crosses(r, ray_t, h1.t, length, draw, h),
                }
            }
    }

    /// The scattering of `r` in the volume at a parameter inside `ray_t`.
    /// `length` gives the length of a vector, and `draw` the logarithm of a
    /// number drawn evenly between zero and one.
    ///
    /// The boundary is asked twice: for its first crossing anywhere along
    /// the line, and for its next one past that by the least thickness.
    /// Without both there is no scattering. The distance to the scattering
    /// is the draw times minus one over the density.
    pub fn hit_with<F: Fn(&Vector<T, 3>) -> T, D: Fn() -> T>(
        &self,
        r: &Ray<T>,
        ray_t: &Interval<T>,
        length: F,
        draw: D,
    ) -> (h: Option<Hit<T, M>>)
        requires
            total::<T>(),
            forall|n: &Vector<T, 3>| call_requires(length, (n,)),
            call_requires(draw, ()),
        ensures
            lawful::<T>() ==> self.passes(*r, *ray_t, length, draw, h),
    {
        let everywhere = Interval::universe();
        let first = self.boundary.hit(r, &everywhere);
        let ghost seen1 = first;
        proof {
            if lawful::<T>() {
                assert(everywhere == Interval::<T> {
                    min: infinity_spec::<T>().neg_spec(),
                    max: infinity_spec::<T>(),
                });
                assert(answer(
                    self.shape(),
                    *r,
                    infinity_spec::<T>().neg_spec(),
                    infinity_spec::<T>(),
                    seen1,
                ));
            }
        }
        let h1 = match first {
            None => {
                return None;
            },
            Some(h1) => h1,
        };
        let beyond = Interval::from(h1.t + thickness());
        let second = self.boundary.hit(r, &beyond);
        let ghost seen2 = second;
        proof {
            if lawful::<T>() {
                assert(beyond == Interval::<T> {
                    min: h1.t.add_spec(thickness_spec::<T>()),
                    max: infinity_spec::<T>(),
                });
                assert(answer(
                    self.shape(),
                    *r,
                    h1.t.add_spec(thickness_spec::<T>()),
                    infinity_spec::<T>(),
                    seen2,
                ));
            }
        }
        let h2 = match second {
            None => {
                return None;
            },
            Some(h2) => h2,
        };
        let (t1, t2) = match Self::clip(ray_t, h1.t, h2.t) {
            None => {
                return None;
            },
            Some(pair) => pair,
        };
        let ray_length: T = length(&r.direction);
        let drawn: T = draw();
        let hit_distance: T = self.neg_inv_density * drawn;
        proof {
            assert(measures(length, draw, r.direction, ray_length, drawn));
        }
        match Self::settle(t1, t2, ray_length, hit_distance) {
            None => None,
            Some(t) => {
                let out = Hit {
                    t,
                    p: r.at(t),
                    uv: Vector::<T, 2>::new(T::from(0u8), T::from(0u8)),
                    normal: Vector::<T, 3>::new(T::from(1u8), T::from(0u8), T::from(0u8)),
                    front_face: true,
                    mat: self.phase_function,
                };
                proof {
                    if lawful::<T>() {
                        assert(scattering(*r, t, self.phase(), out));
                    }
                }
                Some(out)
            },
        }
    }
}

/// `ray_length` is what `length` gave for `direction`, and `drawn` what
/// `draw` gave.
pub open spec fn measures<T: Scalar, F: Fn(&Vector<T, 3>) -> T, D: Fn() -> T>(
    length: F,
    draw: D,
    direction: Vector<T, 3>,
    ray_length: T,
    drawn: T,
) -> bool {
    call_ensures(length, (&direction,), ray_length) && call_ensures(draw, (), drawn)
}

/// How a volume scatters: evenly to all sides, coloured by its texture.
#[derive(Debug, Clone, Copy)]
pub struct Isotropic<X>(pub X);

impl<T: Scalar> Isotropic<SolidColor<T>> {
    /// Scattering of one colour.
    pub fn solid(color: Vector<T, 3>) -> (i: Self)
        ensures
            i.0.0 == color,
    {
        Isotropic(SolidColor(color))
    }
}

impl<X> Isotropic<X> {
    /// Scattering coloured by `tex`.
    pub fn new(tex: X) -> (i: Self)
        ensures
            i.0 == tex,
    {
        Isotropic(tex)
    }

    /// The light sent on from `hit`, given a random unit vector: it goes on
    /// along that vector from the place hit, at the shutter time of the ray
    /// that came in, coloured by the texture there.
    pub fn scatter<T: Scalar, M>(
        &self,
        r_in: &Ray<T>,
        hit: &Hit<T, M>,
        random_unit: Vector<T, 3>,
    ) -> (s: Scatter<T>) where X: Texture<T>
        requires
            total::<T>(),
        ensures
            s.ray.origin == hit.p,
            s.ray.direction == random_unit,
            s.ray.time == r_in.time,
            call_ensures(X::sample_tex, (&self.0, &hit.uv, &hit.p), s.att),
    {
        Scatter {
            ray: Ray::new(hit.p, random_unit, r_in.time),
            att: self.0.sample_tex(&hit.uv, &hit.p),
        }
    }
}

} // verus!
