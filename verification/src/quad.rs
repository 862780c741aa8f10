//! Flat four-sided patches.
use vstd::prelude::*;
use vstd::std_specs::ops::{AddSpec, SubSpec, MulSpec, DivSpec};
use crate::aabb::AABB;
use crate::interval::Interval;
use crate::math::{Vector, sum, scaled, reciprocal, inner, cross_spec, difference, negated};
use crate::object::{Hit, Object, faces};
use crate::ray::Ray;
use crate::scalar::{
    Scalar, total, lawful, small, below, at_most, magnitude, epsilon_spec, epsilon, abs,
};

verus! {

/// The patch with corner `q` and edges `u` and `v` from it.
pub struct Quad<T, M> {
    pub q: Vector<T, 3>,
    pub u: Vector<T, 3>,
    pub v: Vector<T, 3>,
    pub w: Vector<T, 3>,
    pub mat: M,
    bbox: AABB<T>,
    normal: Vector<T, 3>,
    d: T,
}

/// Whether a coordinate lies in the unit range, ends included.
pub open spec fn in_unit<T: Scalar>(a: T) -> bool {
    at_most(small::<T>(0), a) && at_most(a, small::<T>(1))
}

/// The surface coordinates of a point of the plane, where it lies on the
/// patch: both coordinates in the unit range.
pub open spec fn quad_uv_spec<T: Scalar>(a: T, b: T) -> Option<Seq<T>> {
    if in_unit(a) && in_unit(b) {
        Some(seq![a, b])
    } else {
        None
    }
}

/// The surface coordinates `(a, b)` where both lie in the unit range,
/// else none.
pub fn quad_uv<T: Scalar>(a: T, b: T) -> (uv: Option<Vector<T, 2>>)
    ensures
        uv matches Some(c) ==> c@ == seq![a, b],
        lawful::<T>() ==> (uv is Some <==> in_unit(a) && in_unit(b)),
{
    let unit = Interval::new(T::from(0u8), T::from(1u8));
    if unit.contains(a) && unit.contains(b) {
        Some(Vector::<T, 2>::new(a, b))
    } else {
        None
    }
}

/// What a patch keeps besides its corner and edges: its unit normal, the
/// offset of its plane, and the vector `w` by which a point of the plane is
/// read in the patch's own coordinates.
pub struct Plane<T> {
    pub normal: Seq<T>,
    pub d: T,
    pub w: Seq<T>,
}

/// The plane of the patch, given the length `len` of the cross product of
/// its edges.
pub open spec fn plane_spec<T: Scalar>(q: Seq<T>, u: Seq<T>, v: Seq<T>, len: T) -> Plane<T> {
    let n = cross_spec(u, v);
    let normal = scaled(n, reciprocal(len));
    Plane { normal, d: inner(normal, q, 3), w: scaled(normal, reciprocal(len)) }
}

/// The box of the patch: the union of the boxes of its two diagonals.
pub open spec fn patch_box<T: Scalar>(q: Seq<T>, u: Seq<T>, v: Seq<T>) -> AABB<T> {
    AABB::from_points_spec(q, sum(sum(q, u), v)).union_spec(
        AABB::from_points_spec(sum(q, u), sum(q, v)),
    )
}

/// Where a ray meets a patch: the parameter, and the two coordinates of the
/// point in the patch.
pub struct Meeting<T> {
    pub t: T,
    pub alpha: T,
    pub beta: T,
}

impl<T: Scalar, M: Copy> Quad<T, M> {
    /// The corner.
    pub closed spec fn corner(&self) -> Seq<T> {
        self.q@
    }

    /// The two edges.
    pub closed spec fn edges(&self) -> (Seq<T>, Seq<T>) {
        (self.u@, self.v@)
    }

    /// The unit normal, the plane offset and the vector `w`.
    pub closed spec fn plane(&self) -> Plane<T> {
        Plane { normal: self.normal@, d: self.d, w: self.w@ }
    }

    /// What the patch is made of.
    pub closed spec fn material(&self) -> M {
        self.mat
    }

    /// The box kept for the patch.
    pub closed spec fn bounds(&self) -> AABB<T> {
        self.bbox
    }

    /// The patch with corner `q` and edges `u` and `v`. `length` gives the
    /// length of a vector; it is asked for that of the cross product of the
    /// edges.
    pub fn new<F: Fn(&Vector<T, 3>) -> T>(
        q: Vector<T, 3>,
        u: Vector<T, 3>,
        v: Vector<T, 3>,
        mat: M,
        length: &F,
    ) -> (quad: Self)
        requires
            total::<T>(),
            forall|n: &Vector<T, 3>| call_requires(*length, (n,)),
        ensures
            quad.corner() == q@,
            quad.edges() == (u@, v@),
            quad.material() == mat,
            lawful::<T>() ==> quad.bounds() == patch_box(q@, u@, v@),
            lawful::<T>() ==> exists|n: Vector<T, 3>, len: T|
                {
                    &&& n@ == cross_spec(u@, v@)
                    &&& #[trigger] call_ensures(*length, (&n,), len)
                    &&& quad.plane() == plane_spec(q@, u@, v@, len)
                },
    {
        let n = u.cross(&v);
        let len: T = length(&n);
        let normal = n / len;
        let d: T = normal.dot(&q);
        let w = normal / len;
        let bbox1 = AABB::from_points(q, q + u + v);
        let bbox2 = AABB::from_points(q + u, q + v);
        let quad = Quad { q, u, v, w, mat, bbox: bbox1 + bbox2, normal, d };
        proof {
            if lawful::<T>() {
                assert(call_ensures(*length, (&n,), len));
                assert(quad.plane() == plane_spec(q@, u@, v@, len));
            }
        }
        quad
    }

    /// Where `r` meets the patch at a parameter inside `ray_t`, ends
    /// included. There is no such place where the ray runs along the plane,
    /// its direction within the tolerance of lying in it, nor where it meets
    /// the plane outside `ray_t` or off the patch.
    pub open spec fn meets(&self, r: Ray<T>, ray_t: Interval<T>) -> Option<Meeting<T>> {
        let plane = self.plane();
        let denom = inner(plane.normal, r.direction@, 3);
        if below(magnitude(denom), epsilon_spec::<T>()) {
            None
        } else {
            let t = plane.d.sub_spec(inner(plane.normal, r.origin@, 3)).div_spec(denom);
            if !ray_t.holds(t) {
                None
            } else {
                let hitp = difference(r.at_spec(t), self.corner());
                let alpha = inner(plane.w, cross_spec(hitp, self.edges().1), 3);
                let beta = inner(plane.w, cross_spec(self.edges().0, hitp), 3);
                if in_unit(alpha) && in_unit(beta) {
                    Some(Meeting { t, alpha, beta })
                } else {
                    None
                }
            }
        }
    }
}

impl<T: Scalar, M: Copy> Object<T> for Quad<T, M> {
    type Mat = M;

    /// The hit of `r` on the patch at a parameter inside `ray_t`. Its
    /// surface coordinates are the coordinates of the point in the patch,
    /// each in the unit range; its normal is the patch's, turned against the
    /// ray.
    fn hit(&self, r: &Ray<T>, ray_t: &Interval<T>) -> (h: Option<Hit<T, M>>)
        ensures
            lawful::<T>() ==> match self.meets(*r, *ray_t) {
                None => h is None,
                Some(m) => h matches Some(out) && {
                    &&& out.t == m.t
                    &&& out.p@ == r.at_spec(m.t)
                    &&& out.uv@ == seq![m.alpha, m.beta]
                    &&& in_unit(out.uv@[0]) && in_unit(out.uv@[1])
                    &&& out.mat == self.material()
                    &&& out.front_face == faces(r.direction@, self.plane().normal)
                    &&& out.normal@ == (if out.front_face {
                        self.plane().normal
                    } else {
                        negated(self.plane().normal)
                    })
                },
            },
    {
        let denom: T = self.normal.dot(&r.direction);
        if abs(denom) < epsilon() {
            return None;
        }
        let t: T = (self.d - self.normal.dot(&r.origin)) / denom;
        if !ray_t.contains(t) {
            return None;
        }
        let intersection = r.at(t);
        let hitp = intersection - self.q;
        let alpha: T = self.w.dot(&hitp.cross(&self.v));
        let beta: T = self.w.dot(&self.u.cross(&hitp));
        match quad_uv(alpha, beta) {
            Some(uv) => Some(Hit::new(t, intersection, r, self.normal, uv, self.mat)),
            None => None,
        }
    }

    /// The box around the patch.
    fn bbox(&self) -> (b: &AABB<T>)
        ensures
            *b == self.bounds(),
    {
        &self.bbox
    }
}

} // verus!
