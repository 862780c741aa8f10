//! Axis-aligned bounding boxes and the slab test.
use vstd::prelude::*;
use vstd::std_specs::ops::{AddSpec, AddSpecImpl, SubSpec, MulSpec, DivSpec};
use core::ops::Add;
use crate::interval::{Interval, lemma_union_associates};
use crate::math::Vector;
use crate::ray::Ray;
use crate::scalar::{
    Scalar, total, lawful, small, below, at_most, above, thickness_spec, thickness, lesser_spec,
    greater_spec, ordered, comparable, alike,
};

verus! {

/// A box with sides along the axes: one range for each of them.
#[derive(Debug, Clone, Copy)]
pub struct AABB<T> {
    pub x: Interval<T>,
    pub y: Interval<T>,
    pub z: Interval<T>,
}

/// The range from the lesser to the greater of two scalars, `a` first where
/// the order does not tell them apart.
pub open spec fn span<T: Scalar>(a: T, b: T) -> Interval<T> {
    if at_most(a, b) {
        Interval { min: a, max: b }
    } else {
        Interval { min: b, max: a }
    }
}

/// A range as a box keeps it: widened by the least thickness where it is
/// thinner than that.
pub open spec fn thickened<T: Scalar>(i: Interval<T>) -> Interval<T> {
    if below(i.max.sub_spec(i.min), thickness_spec::<T>()) {
        i.padded_spec(thickness_spec::<T>())
    } else {
        i
    }
}

/// What is left of the range `ray_t` of ray parameters after the slab
/// between the two planes of `ax`, for a ray that starts at `o` and moves by
/// `d` along this axis.
pub open spec fn slab<T: Scalar>(ax: Interval<T>, o: T, d: T, ray_t: Interval<T>) -> Interval<T> {
    let adinv = small::<T>(1).div_spec(d);
    let t0 = ax.min.sub_spec(o).mul_spec(adinv);
    let t1 = ax.max.sub_spec(o).mul_spec(adinv);
    if below(t0, t1) {
        Interval {
            min: if above(t0, ray_t.min) {
                t0
            } else {
                ray_t.min
            },
            max: if below(t1, ray_t.max) {
                t1
            } else {
                ray_t.max
            },
        }
    } else {
        Interval {
            min: if above(t1, ray_t.min) {
                t1
            } else {
                ray_t.min
            },
            max: if below(t0, ray_t.max) {
                t0
            } else {
                ray_t.max
            },
        }
    }
}

/// A range of ray parameters in which nothing is left: its upper end is at
/// most its lower end.
pub open spec fn spent<T: Scalar>(i: Interval<T>) -> bool {
    at_most(i.max, i.min)
}

/// The index of the greatest of three sizes, the later axis winning a tie.
pub open spec fn longest<T: Scalar>(sx: T, sy: T, sz: T) -> int {
    if above(sx, sy) {
        if above(sx, sz) {
            0
        } else {
            2
        }
    } else {
        if above(sy, sz) {
            1
        } else {
            2
        }
    }
}

impl<T: Scalar> AABB<T> {
    /// The box with these sides, as given.
    pub open spec fn of(x: Interval<T>, y: Interval<T>, z: Interval<T>) -> Self {
        AABB { x, y, z }
    }

    /// The box with each side widened to the least thickness.
    pub open spec fn thick(self) -> Self {
        AABB { x: thickened(self.x), y: thickened(self.y), z: thickened(self.z) }
    }

    /// The box between two opposite corners.
    pub open spec fn from_points_spec(a: Seq<T>, b: Seq<T>) -> Self {
        Self::of(span(a[0], b[0]), span(a[1], b[1]), span(a[2], b[2])).thick()
    }

    /// The side along axis `i`: `y` for 1, `z` for 2, `x` for any other.
    pub open spec fn axis_spec(self, i: int) -> Interval<T> {
        if i == 1 {
            self.y
        } else if i == 2 {
            self.z
        } else {
            self.x
        }
    }

    /// The axis along which the box is longest.
    pub open spec fn longest_axis_spec(self) -> int {
        longest(
            self.x.max.sub_spec(self.x.min),
            self.y.max.sub_spec(self.y.min),
            self.z.max.sub_spec(self.z.min),
        )
    }

    /// The least box that holds both.
    pub open spec fn union_spec(self, rhs: Self) -> Self {
        AABB {
            x: self.x.union_spec(rhs.x),
            y: self.y.union_spec(rhs.y),
            z: self.z.union_spec(rhs.z),
        }
    }

    /// The box that `add_assign` leaves: the union, passing over ends that
    /// are not numbers.
    pub open spec fn grown_spec(self, rhs: Self) -> Self {
        AABB {
            x: Interval {
                min: lesser_spec(self.x.min, rhs.x.min),
                max: greater_spec(self.x.max, rhs.x.max),
            },
            y: Interval {
                min: lesser_spec(self.y.min, rhs.y.min),
                max: greater_spec(self.y.max, rhs.y.max),
            },
            z: Interval {
                min: lesser_spec(self.z.min, rhs.z.min),
                max: greater_spec(self.z.max, rhs.z.max),
            },
        }
    }

    /// The box moved by `v`, each side widened again to the least thickness.
    pub open spec fn moved_spec(self, v: Seq<T>) -> Self {
        Self::of(
            self.x.shifted_spec(v[0]),
            self.y.shifted_spec(v[1]),
            self.z.shifted_spec(v[2]),
        ).thick()
    }

    /// Whether the ray passes through the box at a parameter inside `ray_t`:
    /// the three slabs, one axis after the other, leave something of it.
    pub open spec fn hit_spec(self, r: Ray<T>, ray_t: Interval<T>) -> bool {
        let a = slab(self.x, r.origin@[0], r.direction@[0], ray_t);
        let b = slab(self.y, r.origin@[1], r.direction@[1], a);
        let c = slab(self.z, r.origin@[2], r.direction@[2], b);
        !spent(a) && !spent(b) && !spent(c)
    }

    /// The box with these sides, each widened to the least thickness where
    /// it is thinner.
    pub fn new(x: Interval<T>, y: Interval<T>, z: Interval<T>) -> (r: Self)
        requires
            total::<T>(),
        ensures
            lawful::<T>() ==> r == Self::of(x, y, z).thick(),
    {
        let mut aabb = AABB { x, y, z };
        aabb.pad_to_minimums();
        aabb
    }

    /// The empty box, which holds nothing and leaves a union unchanged.
    pub fn empty() -> (r: Self)
        requires
            total::<T>(),
        ensures
            lawful::<T>() ==> r == Self::of(
                Interval::empty_spec(),
                Interval::empty_spec(),
                Interval::empty_spec(),
            ),
    {
        AABB { x: Interval::empty(), y: Interval::empty(), z: Interval::empty() }
    }

    /// The box between two opposite corners, given in any order.
    pub fn from_points(a: Vector<T, 3>, b: Vector<T, 3>) -> (r: Self)
        requires
            total::<T>(),
        ensures
            lawful::<T>() ==> r == Self::from_points_spec(a@, b@),
    {
        Self::new(
            if a.x() <= b.x() {
                Interval::new(a.x(), b.x())
            } else {
                Interval::new(b.x(), a.x())
            },
            if a.y() <= b.y() {
                Interval::new(a.y(), b.y())
            } else {
                Interval::new(b.y(), a.y())
            },
            if a.z() <= b.z() {
                Interval::new(a.z(), b.z())
            } else {
                Interval::new(b.z(), a.z())
            },
        )
    }

    /// The axis along which the box is longest: 0, 1 or 2.
    pub fn longest_axis(&self) -> (r: usize)
        requires
            total::<T>(),
        ensures
            r < 3,
            lawful::<T>() ==> r == self.longest_axis_spec(),
    {
        if self.x.size() > self.y.size() {
            if self.x.size() > self.z.size() {
                0
            } else {
                2
            }
        } else {
            if self.y.size() > self.z.size() {
                1
            } else {
                2
            }
        }
    }

    /// The side along axis `i`.
    pub fn axis(&self, i: usize) -> (r: &Interval<T>)
        ensures
            *r == self.axis_spec(i as int),
    {
        if i == 1 {
            &self.y
        } else if i == 2 {
            &self.z
        } else {
            &self.x
        }
    }

    /// One slab of the test: what it leaves of `ray_t`.
    fn narrow(ax: &Interval<T>, o: T, d: T, ray_t: Interval<T>) -> (r: Interval<T>)
        requires
            total::<T>(),
        ensures
            lawful::<T>() ==> r == slab(*ax, o, d, ray_t),
    {
        let mut ray_t = ray_t;
        let adinv: T = T::from(1u8) / d;
        let t0: T = (ax.min - o) * adinv;
        let t1: T = (ax.max - o) * adinv;
        if t0 < t1 {
            if t0 > ray_t.min {
                ray_t.min = t0
            }
            if t1 < ray_t.max {
                ray_t.max = t1
            }
        } else {
            if t1 > ray_t.min {
                ray_t.min = t1
            }
            if t0 < ray_t.max {
                ray_t.max = t0
            }
        }
        ray_t
    }

    /// Whether the ray passes through the box at a parameter inside `ray_t`.
    pub fn hit(&self, r: &Ray<T>, ray_t: Interval<T>) -> (b: bool)
        requires
            total::<T>(),
        ensures
            lawful::<T>() ==> b == self.hit_spec(*r, ray_t),
    {
        let a = Self::narrow(&self.x, r.origin.x(), r.direction.x(), ray_t);
        if a.max <= a.min {
            return false;
        }
        let b = Self::narrow(&self.y, r.origin.y(), r.direction.y(), a);
        if b.max <= b.min {
            return false;
        }
        let c = Self::narrow(&self.z, r.origin.z(), r.direction.z(), b);
        if c.max <= c.min {
            return false;
        }
        true
    }

    /// Widens each side that is thinner than the least thickness.
    fn pad_to_minimums(&mut self)
        requires
            total::<T>(),
        ensures
            lawful::<T>() ==> *final(self) == old(self).thick(),
    {
        let delta: T = thickness();
        if self.x.size() < delta {
            self.x.pad(delta);
        }
        if self.y.size() < delta {
            self.y.pad(delta);
        }
        if self.z.size() < delta {
            self.z.pad(delta);
        }
    }

    /// Grows the box to hold `rhs` too.
    pub fn add_assign(&mut self, rhs: &AABB<T>)
        ensures
            lawful::<T>() ==> *final(self) == old(self).grown_spec(*rhs),
    {
        self.x.add_assign(rhs.x);
        self.y.add_assign(rhs.y);
        self.z.add_assign(rhs.z);
    }

    /// The box moved by `v`.
    pub fn add_vec(&self, v: Vector<T, 3>) -> (r: Self)
        requires
            total::<T>(),
        ensures
            lawful::<T>() ==> r == self.moved_spec(v@),
    {
        AABB::new(self.x + v.x(), self.y + v.y(), self.z + v.z())
    }
}

impl<T: Scalar> Add for AABB<T> {
    type Output = AABB<T>;

    /// The least box that holds both.
    fn add(self, rhs: Self) -> (r: Self)
        ensures
            lawful::<T>() ==> r == self.union_spec(rhs),
    {
        AABB { x: self.x + rhs.x, y: self.y + rhs.y, z: self.z + rhs.z }
    }
}

impl<T: Scalar> AddSpecImpl for AABB<T> {
    open spec fn obeys_add_spec() -> bool {
        lawful::<T>()
    }

    open spec fn add_req(self, rhs: Self) -> bool {
        true
    }

    open spec fn add_spec(self, rhs: Self) -> Self {
        self.union_spec(rhs)
    }
}

/// Two ranges have ends alike.
pub open spec fn alike_range<T: Scalar>(a: Interval<T>, b: Interval<T>) -> bool {
    alike(a.min, b.min) && alike(a.max, b.max)
}

/// The order can compare the ends of three ranges with each other, lower
/// with lower and upper with upper.
pub open spec fn comparable_ranges<T: Scalar>(a: Interval<T>, b: Interval<T>, c: Interval<T>) -> bool {
    &&& comparable(a.min, b.min)
    &&& comparable(b.min, c.min)
    &&& comparable(a.min, c.min)
    &&& comparable(a.max, b.max)
    &&& comparable(b.max, c.max)
    &&& comparable(a.max, c.max)
}

/// The union of three boxes is the same however they are paired, up to
/// which of level ends is kept, where the order can compare their ends.
pub proof fn lemma_union_associative<T: Scalar>(a: AABB<T>, b: AABB<T>, c: AABB<T>)
    requires
        ordered::<T>(),
        comparable_ranges(a.x, b.x, c.x),
        comparable_ranges(a.y, b.y, c.y),
        comparable_ranges(a.z, b.z, c.z),
    ensures
        alike_range(a.union_spec(b).union_spec(c).x, a.union_spec(b.union_spec(c)).x),
        alike_range(a.union_spec(b).union_spec(c).y, a.union_spec(b.union_spec(c)).y),
        alike_range(a.union_spec(b).union_spec(c).z, a.union_spec(b.union_spec(c)).z),
{
    lemma_union_associates(a.x, b.x, c.x);
    lemma_union_associates(a.y, b.y, c.y);
    lemma_union_associates(a.z, b.z, c.z);
}

} // verus!
