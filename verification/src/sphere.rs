//! Spheres, at rest or moving in a straight line while the shutter is open.
use vstd::prelude::*;
use vstd::std_specs::ops::{AddSpec, SubSpec, MulSpec, DivSpec};
use crate::aabb::AABB;
use crate::interval::Interval;
use crate::math::{Vector, sum, difference, scaled, reciprocal, inner, negated};
use crate::object::{Hit, faces};
use crate::ray::Ray;
use crate::scalar::{Scalar, total, lawful, small, below, at_most};

verus! {

/// A sphere whose centre moves along `center` as the shutter time goes from
/// zero to one.
pub struct Sphere<T, M> {
    pub center: Ray<T>,
    pub radius: T,
    pub mat: M,
    bbox: AABB<T>,
}

/// The three numbers of the quadratic whose roots are the parameters at
/// which a ray meets a sphere, in the form with half the middle term: the
/// square `a` of the length of the direction, the product `h` of the
/// direction with the line to the centre, and the discriminant `h h - a c`.
pub struct Quadratic<T> {
    pub a: T,
    pub h: T,
    pub discriminant: T,
}

/// The box around a sphere of this radius about `center`.
pub open spec fn ball<T: Scalar>(center: Seq<T>, radius: T) -> AABB<T> {
    let rvec = seq![radius, radius, radius];
    AABB::from_points_spec(difference(center, rvec), sum(center, rvec))
}

/// The quadratic for a ray from `origin` along `direction` and a sphere of
/// this radius about `center`.
pub open spec fn quadratic_spec<T: Scalar>(
    center: Seq<T>,
    radius: T,
    origin: Seq<T>,
    direction: Seq<T>,
) -> Quadratic<T> {
    let oc = difference(center, origin);
    let a = inner(direction, direction, 3);
    let h = inner(direction, oc, 3);
    let c = inner(oc, oc, 3).sub_spec(radius.mul_spec(radius));
    Quadratic { a, h, discriminant: h.mul_spec(h).sub_spec(a.mul_spec(c)) }
}

/// The nearer root of the quadratic, given the root of its discriminant.
pub open spec fn near_root<T: Scalar>(a: T, h: T, sqrtd: T) -> T {
    h.sub_spec(sqrtd).div_spec(a)
}

/// The farther root of the quadratic.
pub open spec fn far_root<T: Scalar>(a: T, h: T, sqrtd: T) -> T {
    h.add_spec(sqrtd).div_spec(a)
}

/// The root at which the sphere is hit: the nearer one where it lies
/// strictly inside `ray_t`, else the farther one where that does, else
/// none.
pub open spec fn root_spec<T: Scalar>(ray_t: Interval<T>, a: T, h: T, sqrtd: T) -> Option<T> {
    if ray_t.encloses(near_root(a, h, sqrtd)) {
        Some(near_root(a, h, sqrtd))
    } else if ray_t.encloses(far_root(a, h, sqrtd)) {
        Some(far_root(a, h, sqrtd))
    } else {
        None
    }
}

/// The normal of a sphere at `p`: the line from the centre, divided by the
/// radius.
pub open spec fn outward<T: Scalar>(p: Seq<T>, center: Seq<T>, radius: T) -> Seq<T> {
    scaled(difference(p, center), reciprocal(radius))
}

impl<T: Scalar, M: Copy> Sphere<T, M> {
    /// The box kept for the sphere.
    pub closed spec fn bounds(&self) -> AABB<T> {
        self.bbox
    }

    /// The line along which the centre moves.
    pub closed spec fn path(&self) -> Ray<T> {
        self.center
    }

    /// The radius.
    pub closed spec fn size(&self) -> T {
        self.radius
    }

    /// What the sphere is made of.
    pub closed spec fn material(&self) -> M {
        self.mat
    }

    /// Where the centre is at shutter time `time`.
    pub open spec fn center_spec(&self, time: T) -> Seq<T> {
        self.path().at_spec(time)
    }

    /// A sphere at rest.
    pub fn stationary(center: Vector<T, 3>, radius: T, mat: M) -> (s: Self)
        requires
            total::<T>(),
        ensures
            s.path().origin == center,
            s.size() == radius,
            s.material() == mat,
            lawful::<T>() ==> s.path().direction@ == seq![small::<T>(0), small::<T>(0), small::<T>(0)],
            lawful::<T>() ==> s.path().time == small::<T>(0),
            lawful::<T>() ==> s.bounds() == ball(center@, radius),
    {
        let rvec = Vector::<T, 3>::new(radius, radius, radius);
        let still = Vector::<T, 3>::new(T::from(0u8), T::from(0u8), T::from(0u8));
        Sphere {
            center: Ray::new(center, still, T::from(0u8)),
            radius,
            mat,
            bbox: AABB::from_points(center - rvec, center + rvec),
        }
    }

    /// A sphere whose centre is at `center1` when the shutter opens and at
    /// `center2` when it closes. Its box holds the sphere at both moments.
    pub fn moving(center1: Vector<T, 3>, center2: Vector<T, 3>, radius: T, mat: M) -> (s: Self)
        requires
            total::<T>(),
        ensures
            s.path().origin == center1,
            s.size() == radius,
            s.material() == mat,
            lawful::<T>() ==> s.path().direction@ == difference(center2@, center1@),
            lawful::<T>() ==> s.path().time == small::<T>(0),
            lawful::<T>() ==> s.bounds() == ball(s.center_spec(small::<T>(0)), radius).union_spec(
                ball(s.center_spec(small::<T>(1)), radius),
            ),
    {
        let rvec = Vector::<T, 3>::new(radius, radius, radius);
        let center = Ray::new(center1, center2 - center1, T::from(0u8));
        let opens = center.at(T::from(0u8));
        let closes = center.at(T::from(1u8));
        let bbox = AABB::from_points(opens - rvec, opens + rvec) + AABB::from_points(
            closes - rvec,
            closes + rvec,
        );
        Sphere { center, radius, mat, bbox }
    }

    /// The box around the sphere.
    pub fn bbox(&self) -> (b: &AABB<T>)
        ensures
            *b == self.bounds(),
    {
        &self.bbox
    }

    /// The quadratic for the ray `r` and the sphere as it is at the ray's
    /// shutter time.
    pub fn quadratic(&self, r: &Ray<T>) -> (q: Quadratic<T>)
        requires
            total::<T>(),
        ensures
            lawful::<T>() ==> q == quadratic_spec(
                self.center_spec(r.time),
                self.size(),
                r.origin@,
                r.direction@,
            ),
    {
        let center = self.center.at(r.time);
        let oc = center - r.origin;
        let a: T = r.direction.length_squared();
        let h: T = r.direction.dot(&oc);
        let c: T = oc.length_squared() - self.radius * self.radius;
        Quadratic { a, h, discriminant: h * h - a * c }
    }

    /// The root at which the sphere is hit, given the root `sqrtd` of the
    /// discriminant.
    pub fn nearest_root(ray_t: &Interval<T>, a: T, h: T, sqrtd: T) -> (root: Option<T>)
        requires
            total::<T>(),
        ensures
            lawful::<T>() ==> root == root_spec(*ray_t, a, h, sqrtd),
    {
        let mut root: T = (h - sqrtd) / a;
        if !ray_t.surrounds(root) {
            root = (h + sqrtd) / a;
            if !ray_t.surrounds(root) {
                return None;
            }
        }
        Some(root)
    }

    /// The record of the hit at parameter `root`, given the surface
    /// coordinates `uv` of the point hit.
    pub fn hit_at(&self, r: &Ray<T>, root: T, normal: Vector<T, 3>, uv: Vector<T, 2>) -> (h: Hit<T, M>)
        requires
            total::<T>(),
        ensures
            h.t == root,
            h.uv == uv,
            h.mat == self.material(),
            lawful::<T>() ==> h.p@ == r.at_spec(root),
            lawful::<T>() ==> h.front_face == faces(r.direction@, normal@),
            lawful::<T>() ==> h.normal@ == (if h.front_face {
                normal@
            } else {
                negated(normal@)
            }),
    {
        Hit::new(root, r.at(root), r, normal, uv, self.mat)
    }

    /// The normal at the point of the ray at `root`.
    pub fn normal_at(&self, r: &Ray<T>, root: T) -> (n: Vector<T, 3>)
        requires
            total::<T>(),
        ensures
            lawful::<T>() ==> n@ == outward(r.at_spec(root), self.center_spec(r.time), self.size()),
    {
        (r.at(root) - self.center.at(r.time)) / self.radius
    }

    /// The hit of `r` on the sphere at a parameter strictly inside `ray_t`.
    /// `sqrt` gives the root of the discriminant, and `uv` the surface
    /// coordinates for a normal.
    ///
    /// There is none where the discriminant lies below zero, nor where
    /// neither root lies strictly inside `ray_t`. Otherwise the hit is at
    /// the nearer root inside, and else at the farther.
    pub fn hit_with<S: Fn(T) -> T, U: Fn(&Vector<T, 3>) -> Vector<T, 2>>(
        &self,
        r: &Ray<T>,
        ray_t: &Interval<T>,
        sqrt: S,
        uv: U,
    ) -> (h: Option<Hit<T, M>>)
        requires
            total::<T>(),
            forall|x: T| call_requires(sqrt, (x,)),
            forall|n: &Vector<T, 3>| call_requires(uv, (n,)),
        ensures
            lawful::<T>() ==> ({
                let q = quadratic_spec(self.center_spec(r.time), self.size(), r.origin@, r.direction@);
                if below(q.discriminant, small::<T>(0)) {
                    h is None
                } else {
                    exists|sqrtd: T|
                        {
                            &&& #[trigger] call_ensures(sqrt, (q.discriminant,), sqrtd)
                            &&& match root_spec(*ray_t, q.a, q.h, sqrtd) {
                                None => h is None,
                                Some(root) => h matches Some(out) && out.t == root && out.mat
                                    == self.material() && out.p@ == r.at_spec(root) && self.marked(
                                    *r,
                                    root,
                                    uv,
                                    out,
                                ),
                            }
                        }
                }
            }),
    {
        let q = self.quadratic(r);
        if q.discriminant < T::from(0u8) {
            return None;
        }
        let sqrtd: T = sqrt(q.discriminant);
        match Self::nearest_root(ray_t, q.a, q.h, sqrtd) {
            None => None,
            Some(root) => {
                let normal = self.normal_at(r, root);
                let coords = uv(&normal);
                let out = self.hit_at(r, root, normal, coords);
                proof {
                    if lawful::<T>() {
                        assert(call_ensures(uv, (&normal,), out.uv));
                        assert(self.marked(*r, root, uv, out));
                    }
                }
                Some(out)
            },
        }
    }

    /// The normal and the surface coordinates of `out` are those of a hit of
    /// `r` at `root`: the normal is the outward one, turned against the ray,
    /// and the coordinates are what `uv` gave for the outward normal.
    pub open spec fn marked<U: Fn(&Vector<T, 3>) -> Vector<T, 2>>(
        &self,
        r: Ray<T>,
        root: T,
        uv: U,
        out: Hit<T, M>,
    ) -> bool {
        exists|normal: Vector<T, 3>|
            {
                &&& normal@ == outward(r.at_spec(root), self.center_spec(r.time), self.size())
                &&& #[trigger] call_ensures(uv, (&normal,), out.uv)
                &&& out.front_face == faces(r.direction@, normal@)
                &&& out.normal@ == (if out.front_face {
                    normal@
                } else {
                    negated(normal@)
                })
            }
    }
}

/// The root that a sphere is hit at is the least root strictly inside the
/// range asked for, where the nearer root is at most the farther: it is one
/// of the two roots, it lies strictly inside, and each root that lies
/// strictly inside is the one hit or lies beyond it. Where no root is hit,
/// none lies strictly inside.
pub proof fn lemma_least_root<T: Scalar>(ray_t: Interval<T>, a: T, h: T, sqrtd: T)
    requires
        at_most(near_root(a, h, sqrtd), far_root(a, h, sqrtd)),
    ensures
        root_spec(ray_t, a, h, sqrtd) matches Some(root) ==> {
            &&& ray_t.encloses(root)
            &&& root == near_root(a, h, sqrtd) || root == far_root(a, h, sqrtd)
            &&& ray_t.encloses(near_root(a, h, sqrtd)) ==> root == near_root(a, h, sqrtd)
            &&& ray_t.encloses(far_root(a, h, sqrtd)) ==> root == far_root(a, h, sqrtd) || at_most(
                root,
                far_root(a, h, sqrtd),
            )
        },
        root_spec(ray_t, a, h, sqrtd) is None ==> !ray_t.encloses(near_root(a, h, sqrtd))
            && !ray_t.encloses(far_root(a, h, sqrtd)),
{
}

} // verus!
