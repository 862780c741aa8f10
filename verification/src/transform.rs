//! Shapes moved or turned: each wraps a shape and answers for it in the
//! moved or turned frame.
use vstd::prelude::*;
use vstd::std_specs::ops::{AddSpec, SubSpec, MulSpec, NegSpec};
use core::ops::Neg;
use crate::aabb::AABB;
use crate::group::answer;
use crate::interval::Interval;
use crate::math::{Vector, sum, difference};
use crate::object::{Hit, Object};
use crate::ray::Ray;
use crate::scalar::{
    Scalar, total, lawful, small, infinity_spec, infinity, lesser, greater, lesser_spec,
    greater_spec, from_small,
};

verus! {

/// A shape moved by `offset`.
pub struct Translate<T: Scalar, O: Object<T>> {
    pub obj: O,
    pub offset: Vector<T, 3>,
    bbox: AABB<T>,
}

/// The ray as the moved shape sees it: its origin moved back by `offset`.
pub open spec fn moved_back<T: Scalar>(r: Ray<T>, offset: Seq<T>, back: Ray<T>) -> bool {
    &&& back.origin@ == difference(r.origin@, offset)
    &&& back.direction == r.direction
    &&& back.time == r.time
}

/// The hit of the wrapped shape, brought forward: its point moved by
/// `offset`, all else as it was.
pub open spec fn brought_forward<T: Scalar, M>(inner: Hit<T, M>, offset: Seq<T>, h: Hit<T, M>) -> bool {
    &&& h.p@ == sum(inner.p@, offset)
    &&& h.t == inner.t
    &&& h.normal == inner.normal
    &&& h.front_face == inner.front_face
    &&& h.uv == inner.uv
    &&& h.mat == inner.mat
}

/// What the moved shape answers where the wrapped shape answered `found`.
pub open spec fn carried<T: Scalar, M>(
    found: Option<Hit<T, M>>,
    offset: Seq<T>,
    h: Option<Hit<T, M>>,
) -> bool {
    match found {
        None => h is None,
        Some(inner) => h matches Some(out) && brought_forward(inner, offset, out),
    }
}

impl<T: Scalar, O: Object<T>> Translate<T, O> {
    /// The wrapped shape.
    pub closed spec fn inner(&self) -> O {
        self.obj
    }

    /// The offset.
    pub closed spec fn by(&self) -> Seq<T> {
        self.offset@
    }

    /// The box kept for the moved shape.
    pub closed spec fn bounds(&self) -> AABB<T> {
        self.bbox
    }

    /// `obj` moved by `offset`; its box is the box of `obj` moved likewise.
    pub fn new(obj: O, offset: Vector<T, 3>) -> (t: Self)
        requires
            total::<T>(),
        ensures
            t.inner() == obj,
            t.by() == offset@,
            lawful::<T>() ==> exists|b: AABB<T>|
                #![trigger b.moved_spec(offset@)]
                call_ensures(O::bbox, (&obj,), &b) && t.bounds() == b.moved_spec(offset@),
    {
        let bbox: AABB<T> = obj.bbox().add_vec(offset);
        Translate { obj, offset, bbox }
    }
}

impl<T: Scalar, O: Object<T>> Object<T> for Translate<T, O> {
    type Mat = O::Mat;

    /// The hit of the wrapped shape on the ray moved back, brought forward
    /// again.
    fn hit(&self, r: &Ray<T>, ray_t: &Interval<T>) -> (h: Option<Hit<T, O::Mat>>)
        ensures
            lawful::<T>() ==> exists|back: Ray<T>, found: Option<Hit<T, O::Mat>>|
                {
                    &&& moved_back(*r, self.by(), back)
                    &&& #[trigger] answer(self.inner(), back, ray_t.min, ray_t.max, found)
                    &&& carried(found, self.by(), h)
                },
    {
        let offset_r = Ray::new(r.origin - self.offset, r.direction, r.time);
        let found = self.obj.hit(&offset_r, ray_t);
        let ghost seen = found;
        proof {
            assert(Interval { min: ray_t.min, max: ray_t.max } == *ray_t);
            assert(answer(self.obj, offset_r, ray_t.min, ray_t.max, seen));
        }
        let h = match found {
            None => None,
            Some(hit) => {
                let mut hit = hit;
                hit.p = hit.p + self.offset;
                Some(hit)
            },
        };
        proof {
            if lawful::<T>() {
                assert(answer(self.inner(), offset_r, ray_t.min, ray_t.max, seen));
                assert(moved_back(*r, self.by(), offset_r));
                assert(carried(seen, self.by(), h));
            }
        }
        h
    }

    /// The box of the moved shape.
    fn bbox(&self) -> (b: &AABB<T>)
        ensures
            *b == self.bounds(),
    {
        &self.bbox
    }
}

/// A shape turned about the vertical axis by the angle whose sine and cosine
/// are kept.
pub struct RotateY<T: Scalar, O: Object<T>> {
    pub obj: O,
    sin_theta: T,
    cos_theta: T,
    bbox: AABB<T>,
}

/// A point or direction turned into the frame of the wrapped shape:
/// `(cos x - sin z, y, sin x + cos z)`.
pub open spec fn turned_in<T: Scalar>(v: Seq<T>, sin: T, cos: T) -> Seq<T> {
    seq![
        cos.mul_spec(v[0]).sub_spec(sin.mul_spec(v[2])),
        v[1],
        sin.mul_spec(v[0]).add_spec(cos.mul_spec(v[2])),
    ]
}

/// A point or direction turned back out of that frame:
/// `(cos x + sin z, y, -sin x + cos z)`.
pub open spec fn turned_out<T: Scalar>(v: Seq<T>, sin: T, cos: T) -> Seq<T> {
    seq![
        cos.mul_spec(v[0]).add_spec(sin.mul_spec(v[2])),
        v[1],
        sin.neg_spec().mul_spec(v[0]).add_spec(cos.mul_spec(v[2])),
    ]
}

/// The corner of `b` picked by three choices of upper (1) or lower (0) end.
/// It is weighed out of both ends, as `i * max + (1 - i) * min`.
pub open spec fn corner<T: Scalar>(b: AABB<T>, i: u8, j: u8, k: u8) -> Seq<T> {
    seq![
        weighed(b.x, i),
        weighed(b.y, j),
        weighed(b.z, k),
    ]
}

/// `i * max + (1 - i) * min` for `i` zero or one.
pub open spec fn weighed<T: Scalar>(side: Interval<T>, i: u8) -> T {
    small::<T>(i).mul_spec(side.max).add_spec(small::<T>((1 - i) as u8).mul_spec(side.min))
}

/// The least and the greatest that the first `n` turned corners of `b` reach
/// along each axis, as a pair of points, starting from infinity and minus
/// infinity. The corners come in the order of their three choices read as a
/// binary number.
pub open spec fn envelope<T: Scalar>(b: AABB<T>, sin: T, cos: T, n: nat) -> (Seq<T>, Seq<T>)
    decreases n,
{
    if n == 0 {
        (
            seq![infinity_spec::<T>(), infinity_spec::<T>(), infinity_spec::<T>()],
            seq![
                infinity_spec::<T>().neg_spec(),
                infinity_spec::<T>().neg_spec(),
                infinity_spec::<T>().neg_spec(),
            ],
        )
    } else {
        let m = (n - 1) as nat;
        let (lo, hi) = envelope(b, sin, cos, m);
        let c = turned_out(corner(b, (m / 4) as u8, ((m / 2) % 2) as u8, (m % 2) as u8), sin, cos);
        (
            seq![lesser_spec(lo[0], c[0]), lesser_spec(lo[1], c[1]), lesser_spec(lo[2], c[2])],
            seq![greater_spec(hi[0], c[0]), greater_spec(hi[1], c[1]), greater_spec(hi[2], c[2])],
        )
    }
}

/// The hit of the wrapped shape, turned back out: its point and its normal
/// turned, all else as it was.
pub open spec fn turned_back<T: Scalar, M>(inner: Hit<T, M>, sin: T, cos: T, h: Hit<T, M>) -> bool {
    &&& h.p@ == turned_out(inner.p@, sin, cos)
    &&& h.normal@ == turned_out(inner.normal@, sin, cos)
    &&& h.t == inner.t
    &&& h.front_face == inner.front_face
    &&& h.uv == inner.uv
    &&& h.mat == inner.mat
}

/// What the turned shape answers where the wrapped shape answered `found`.
pub open spec fn returned<T: Scalar, M>(
    found: Option<Hit<T, M>>,
    sin: T,
    cos: T,
    h: Option<Hit<T, M>>,
) -> bool {
    match found {
        None => h is None,
        Some(inner) => h matches Some(out) && turned_back(inner, sin, cos, out),
    }
}

impl<T: Scalar, O: Object<T>> RotateY<T, O> {
    /// The wrapped shape.
    pub closed spec fn inner(&self) -> O {
        self.obj
    }

    /// The sine of the angle.
    pub closed spec fn sin(&self) -> T {
        self.sin_theta
    }

    /// The cosine of the angle.
    pub closed spec fn cos(&self) -> T {
        self.cos_theta
    }

    /// The box kept for the turned shape.
    pub closed spec fn bounds(&self) -> AABB<T> {
        self.bbox
    }

    /// `obj` turned about the vertical axis by the angle with this sine and
    /// cosine. Its box is the box between the least and the greatest that
    /// the eight turned corners of the box of `obj` reach.
    pub fn new(obj: O, sin_theta: T, cos_theta: T) -> (t: Self)
        requires
            total::<T>(),
        ensures
            t.inner() == obj,
            t.sin() == sin_theta,
            t.cos() == cos_theta,
            lawful::<T>() ==> exists|b: AABB<T>|
                #![trigger envelope(b, sin_theta, cos_theta, 8)]
                {
                    &&& call_ensures(O::bbox, (&obj,), &b)
                    &&& t.bounds() == AABB::from_points_spec(
                        envelope(b, sin_theta, cos_theta, 8).0,
                        envelope(b, sin_theta, cos_theta, 8).1,
                    )
                },
    {
        let b: AABB<T> = *obj.bbox();
        let inf: T = infinity();
        let mut min = Vector::<T, 3>::new(inf, inf, inf);
        let mut max = Vector::<T, 3>::new(inf.neg(), inf.neg(), inf.neg());
        let mut n: u8 = 0;
        while n < 8
            invariant
                0 <= n <= 8,
                total::<T>(),
                lawful::<T>() ==> min@ == envelope(b, sin_theta, cos_theta, n as nat).0,
                lawful::<T>() ==> max@ == envelope(b, sin_theta, cos_theta, n as nat).1,
            decreases 8 - n,
        {
            let i: u8 = n / 4;
            let j: u8 = (n / 2) % 2;
            let k: u8 = n % 2;
            let x: T = from_small::<T>(i) * b.x.max + from_small::<T>(1 - i) * b.x.min;
            let y: T = from_small::<T>(j) * b.y.max + from_small::<T>(1 - j) * b.y.min;
            let z: T = from_small::<T>(k) * b.z.max + from_small::<T>(1 - k) * b.z.min;
            let newx: T = cos_theta * x + sin_theta * z;
            let newz: T = sin_theta.neg() * x + cos_theta * z;
            let ghost lo = min@;
            let ghost hi = max@;
            min = Vector::<T, 3>::new(lesser(min.x(), newx), lesser(min.y(), y), lesser(min.z(), newz));
            max = Vector::<T, 3>::new(
                greater(max.x(), newx),
                greater(max.y(), y),
                greater(max.z(), newz),
            );
            proof {
                if lawful::<T>() {
                    let c = turned_out(corner(b, i, j, k), sin_theta, cos_theta);
                    assert(c[0] == newx && c[1] == y && c[2] == newz);
                    assert(min@ =~= seq![
                        lesser_spec(lo[0], c[0]),
                        lesser_spec(lo[1], c[1]),
                        lesser_spec(lo[2], c[2]),
                    ]);
                    assert(max@ =~= seq![
                        greater_spec(hi[0], c[0]),
                        greater_spec(hi[1], c[1]),
                        greater_spec(hi[2], c[2]),
                    ]);
                }
            }
            n += 1;
        }
        let bbox = AABB::from_points(min, max);
        RotateY { obj, sin_theta, cos_theta, bbox }
    }

    /// A point or direction turned into the frame of the wrapped shape.
    fn turn_in(&self, v: &Vector<T, 3>) -> (r: Vector<T, 3>)
        requires
            total::<T>(),
        ensures
            lawful::<T>() ==> r@ == turned_in(v@, self.sin_theta, self.cos_theta),
    {
        let r = Vector::<T, 3>::new(
            (self.cos_theta * v.x()) - (self.sin_theta * v.z()),
            v.y(),
            (self.sin_theta * v.x()) + (self.cos_theta * v.z()),
        );
        assert(lawful::<T>() ==> r@ =~= turned_in(v@, self.sin_theta, self.cos_theta));
        r
    }

    /// A point or direction turned back out of that frame.
    fn turn_out(&self, v: &Vector<T, 3>) -> (r: Vector<T, 3>)
        requires
            total::<T>(),
        ensures
            lawful::<T>() ==> r@ == turned_out(v@, self.sin_theta, self.cos_theta),
    {
        let r = Vector::<T, 3>::new(
            (self.cos_theta * v.x()) + (self.sin_theta * v.z()),
            v.y(),
            (self.sin_theta.neg() * v.x()) + (self.cos_theta * v.z()),
        );
        assert(lawful::<T>() ==> r@ =~= turned_out(v@, self.sin_theta, self.cos_theta));
        r
    }
}

impl<T: Scalar, O: Object<T>> Object<T> for RotateY<T, O> {
    type Mat = O::Mat;

    /// The hit of the wrapped shape on the ray turned into its frame,
    /// turned back out.
    fn hit(&self, r: &Ray<T>, ray_t: &Interval<T>) -> (h: Option<Hit<T, O::Mat>>)
        ensures
            lawful::<T>() ==> exists|turned: Ray<T>, found: Option<Hit<T, O::Mat>>|
                {
                    &&& turned.origin@ == turned_in(r.origin@, self.sin(), self.cos())
                    &&& turned.direction@ == turned_in(r.direction@, self.sin(), self.cos())
                    &&& turned.time == r.time
                    &&& #[trigger] answer(self.inner(), turned, ray_t.min, ray_t.max, found)
                    &&& returned(found, self.sin(), self.cos(), h)
                },
    {
        let origin = self.turn_in(&r.origin);
        let direction = self.turn_in(&r.direction);
        let rotated_r = Ray::new(origin, direction, r.time);
        let found = self.obj.hit(&rotated_r, ray_t);
        let ghost seen = found;
        proof {
            assert(Interval { min: ray_t.min, max: ray_t.max } == *ray_t);
            assert(answer(self.obj, rotated_r, ray_t.min, ray_t.max, seen));
        }
        let h = match found {
            None => None,
            Some(hit) => {
                let mut hit = hit;
                hit.p = self.turn_out(&hit.p);
                hit.normal = self.turn_out(&hit.normal);
                Some(hit)
            },
        };
        proof {
            if lawful::<T>() {
                assert(answer(self.inner(), rotated_r, ray_t.min, ray_t.max, seen));
                assert(returned(seen, self.sin(), self.cos(), h));
            }
        }
        h
    }

    /// The box of the turned shape.
    fn bbox(&self) -> (b: &AABB<T>)
        ensures
            *b == self.bounds(),
    {
        &self.bbox
    }
}

} // verus!
