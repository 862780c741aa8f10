//! Closed ranges of scalars.
use vstd::prelude::*;
use vstd::std_specs::ops::{AddSpec, AddSpecImpl, SubSpec, DivSpec, NegSpec};
use vstd::std_specs::cmp::{PartialEqSpec, PartialEqSpecImpl};
use core::ops::{Add, Neg};
use crate::scalar::{
    Scalar, total, lawful, small, below, at_most, above, at_least, infinity_spec, infinity, lesser,
    greater, lesser_spec, greater_spec, ordered, comparable, alike, level,
};

verus! {

/// The range from `min` to `max`, both ends included. It is empty where
/// `max` lies below `min`.
#[derive(Debug, Clone, Copy)]
pub struct Interval<T> {
    pub min: T,
    pub max: T,
}

impl<T: Scalar> PartialEq for Interval<T> {
    /// Both ends are equal.
    fn eq(&self, other: &Self) -> (r: bool) {
        self.min == other.min && self.max == other.max
    }
}

impl<T: Scalar> PartialEqSpecImpl for Interval<T> {
    open spec fn obeys_eq_spec() -> bool {
        lawful::<T>()
    }

    open spec fn eq_spec(&self, other: &Self) -> bool {
        self.min.eq_spec(&other.min) && self.max.eq_spec(&other.max)
    }
}

/// Half of `x`, by which padding moves each end.
pub open spec fn half<T: Scalar>(x: T) -> T {
    x.div_spec(small::<T>(2))
}

impl<T: Scalar> Interval<T> {
    /// The empty range: from infinity down to minus infinity.
    pub open spec fn empty_spec() -> Self {
        Interval { min: infinity_spec::<T>(), max: infinity_spec::<T>().neg_spec() }
    }

    /// The range of all scalars.
    pub open spec fn universe_spec() -> Self {
        Interval { min: infinity_spec::<T>().neg_spec(), max: infinity_spec::<T>() }
    }

    /// Whether `x` lies in the range, ends included.
    pub open spec fn holds(self, x: T) -> bool {
        at_most(self.min, x) && at_most(x, self.max)
    }

    /// Whether `x` lies strictly between the ends.
    pub open spec fn encloses(self, x: T) -> bool {
        below(self.min, x) && below(x, self.max)
    }

    /// The scalar of the range nearest to `x`.
    pub open spec fn clamp_spec(self, x: T) -> T {
        if below(x, self.min) {
            self.min
        } else if above(x, self.max) {
            self.max
        } else {
            x
        }
    }

    /// The range widened by `x` in all, half at each end.
    pub open spec fn padded_spec(self, x: T) -> Self {
        Interval { min: self.min.sub_spec(half(x)), max: self.max.add_spec(half(x)) }
    }

    /// The least range that holds both `self` and `rhs`, an end of `self`
    /// winning a tie.
    pub open spec fn union_spec(self, rhs: Self) -> Self {
        Interval {
            min: if at_most(self.min, rhs.min) {
                self.min
            } else {
                rhs.min
            },
            max: if at_least(self.max, rhs.max) {
                self.max
            } else {
                rhs.max
            },
        }
    }

    /// The range moved by `t`.
    pub open spec fn shifted_spec(self, t: T) -> Self {
        Interval { min: self.min.add_spec(t), max: self.max.add_spec(t) }
    }

    /// The interval with these ends.
    pub open spec fn of(min: T, max: T) -> Self {
        Interval { min, max }
    }

    /// The range from `min` to `max`.
    pub fn new(min: T, max: T) -> (r: Self)
        ensures
            r == Self::of(min, max),
    {
        Interval { min, max }
    }

    /// The empty range: it holds no scalar, and its union with a range is
    /// that range.
    pub fn empty() -> (r: Self)
        requires
            total::<T>(),
        ensures
            lawful::<T>() ==> r == Self::empty_spec(),
    {
        let inf: T = infinity();
        Interval { min: inf, max: inf.neg() }
    }

    /// The range from `min` upwards without end.
    pub fn from(min: T) -> (r: Self)
        requires
            total::<T>(),
        ensures
            r.min == min,
            lawful::<T>() ==> r.max == infinity_spec::<T>(),
    {
        Interval { min, max: infinity() }
    }

    /// The range of all scalars.
    pub fn universe() -> (r: Self)
        requires
            total::<T>(),
        ensures
            lawful::<T>() ==> r == Self::universe_spec(),
    {
        let inf: T = infinity();
        Interval { min: inf.neg(), max: inf }
    }

    /// The length of the range: `max - min`.
    pub fn size(&self) -> (r: T)
        requires
            total::<T>(),
        ensures
            lawful::<T>() ==> r == self.max.sub_spec(self.min),
    {
        self.max - self.min
    }

    /// Whether `x` lies in the range, ends included.
    pub fn contains(&self, x: T) -> (r: bool)
        ensures
            lawful::<T>() ==> r == self.holds(x),
    {
        self.min <= x && x <= self.max
    }

    /// Whether `x` lies strictly between the ends.
    pub fn surrounds(&self, x: T) -> (r: bool)
        ensures
            lawful::<T>() ==> r == self.encloses(x),
    {
        self.min < x && x < self.max
    }

    /// The scalar of the range nearest to `x`.
    pub fn clamp(&self, x: T) -> (r: T)
        ensures
            r == x || r == self.min || r == self.max,
            lawful::<T>() ==> r == self.clamp_spec(x),
    {
        if x < self.min {
            self.min
        } else if x > self.max {
            self.max
        } else {
            x
        }
    }

    /// Widens the range by `x` in all, half at each end.
    pub fn pad(&mut self, x: T)
        requires
            total::<T>(),
        ensures
            lawful::<T>() ==> *final(self) == old(self).padded_spec(x),
    {
        let padding: T = x / T::from(2u8);
        self.min = self.min - padding;
        self.max = self.max + padding;
    }

    /// The range widened by `x` in all, half at each end.
    pub fn padded(&self, x: T) -> (r: Self)
        requires
            total::<T>(),
        ensures
            lawful::<T>() ==> r == self.padded_spec(x),
    {
        let padding: T = x / T::from(2u8);
        Interval { min: self.min - padding, max: self.max + padding }
    }

    /// Grows the range to hold `rhs` too, passing over an end of either
    /// that is not a number.
    pub fn add_assign(&mut self, rhs: Self)
        ensures
            final(self).min == old(self).min || final(self).min == rhs.min,
            final(self).max == old(self).max || final(self).max == rhs.max,
            lawful::<T>() ==> final(self).min == lesser_spec(old(self).min, rhs.min),
            lawful::<T>() ==> final(self).max == greater_spec(old(self).max, rhs.max),
    {
        self.min = lesser(self.min, rhs.min);
        self.max = greater(self.max, rhs.max);
    }

    /// Moves the lower end down and the upper end up by `rhs` each.
    pub fn add_assign_scalar(&mut self, rhs: T)
        requires
            total::<T>(),
        ensures
            lawful::<T>() ==> final(self).min == old(self).min.sub_spec(rhs),
            lawful::<T>() ==> final(self).max == old(self).max.add_spec(rhs),
    {
        self.min = self.min - rhs;
        self.max = self.max + rhs;
    }
}

impl<T: Scalar> Add for Interval<T> {
    type Output = Interval<T>;

    /// The least range that holds both.
    fn add(self, rhs: Self) -> (r: Self)
        ensures
            r.min == self.min || r.min == rhs.min,
            r.max == self.max || r.max == rhs.max,
            lawful::<T>() ==> r == self.union_spec(rhs),
    {
        Interval {
            min: if self.min <= rhs.min {
                self.min
            } else {
                rhs.min
            },
            max: if self.max >= rhs.max {
                self.max
            } else {
                rhs.max
            },
        }
    }
}

impl<T: Scalar> AddSpecImpl for Interval<T> {
    open spec fn obeys_add_spec() -> bool {
        lawful::<T>()
    }

    open spec fn add_req(self, rhs: Self) -> bool {
        true
    }

    open spec fn add_spec(self, rhs: Self) -> Self {
        self.union_spec(rhs)
    }
}

impl<T: Scalar> Add<T> for Interval<T> {
    type Output = Interval<T>;

    /// The range moved by `t`.
    fn add(self, t: T) -> (r: Self)
        ensures
            lawful::<T>() ==> r == self.shifted_spec(t),
    {
        Interval { min: self.min + t, max: self.max + t }
    }
}

impl<T: Scalar> AddSpecImpl<T> for Interval<T> {
    open spec fn obeys_add_spec() -> bool {
        lawful::<T>()
    }

    open spec fn add_req(self, t: T) -> bool {
        total::<T>()
    }

    open spec fn add_spec(self, t: T) -> Self {
        self.shifted_spec(t)
    }
}

/// What lies strictly inside a range lies in it.
pub proof fn lemma_surrounds_contains<T: Scalar>(i: Interval<T>, x: T)
    requires
        i.encloses(x),
    ensures
        i.holds(x),
{
}

/// The union of two ranges is the same in either order, up to which of two
/// level ends is kept, where the order can compare their ends.
pub proof fn lemma_union_commutes<T: Scalar>(a: Interval<T>, b: Interval<T>)
    requires
        ordered::<T>(),
        comparable(a.min, b.min),
        comparable(a.max, b.max),
    ensures
        alike(a.union_spec(b).min, b.union_spec(a).min),
        alike(a.union_spec(b).max, b.union_spec(a).max),
{
    assert(below(a.min, b.min) <==> above(b.min, a.min));
    assert(below(b.min, a.min) <==> above(a.min, b.min));
    assert(level(a.min, b.min) <==> level(b.min, a.min));
    assert(below(a.max, b.max) <==> above(b.max, a.max));
    assert(below(b.max, a.max) <==> above(a.max, b.max));
    assert(level(a.max, b.max) <==> level(b.max, a.max));
}

/// A range swallows a point that it holds: its union with the range of
/// that point alone is the range itself, and in the other order a range
/// with ends alike.
pub proof fn lemma_union_absorbs_point<T: Scalar>(i: Interval<T>, x: T)
    requires
        ordered::<T>(),
        i.holds(x),
    ensures
        i.union_spec(Interval { min: x, max: x }) == i,
        alike((Interval { min: x, max: x }).union_spec(i).min, i.min),
        alike((Interval { min: x, max: x }).union_spec(i).max, i.max),
{
    assert(below(x, i.max) <==> above(i.max, x));
    assert(level(x, i.max) <==> level(i.max, x));
    assert(below(i.min, x) <==> above(x, i.min));
    assert(level(i.min, x) <==> level(x, i.min));
}

/// The union of three ranges is the same however they are paired, up to
/// which of level ends is kept, where the order can compare their ends.
pub proof fn lemma_union_associates<T: Scalar>(a: Interval<T>, b: Interval<T>, c: Interval<T>)
    requires
        ordered::<T>(),
        comparable(a.min, b.min),
        comparable(b.min, c.min),
        comparable(a.min, c.min),
        comparable(a.max, b.max),
        comparable(b.max, c.max),
        comparable(a.max, c.max),
    ensures
        alike(a.union_spec(b).union_spec(c).min, a.union_spec(b.union_spec(c)).min),
        alike(a.union_spec(b).union_spec(c).max, a.union_spec(b.union_spec(c)).max),
{
    lemma_least_associates(a.min, b.min, c.min);
    lemma_greatest_associates(a.max, b.max, c.max);
}

/// The lesser of two scalars, the first where they are level.
pub open spec fn least<T: Scalar>(a: T, b: T) -> T {
    if at_most(a, b) {
        a
    } else {
        b
    }
}

/// The greater of two scalars, the first where they are level.
pub open spec fn greatest<T: Scalar>(a: T, b: T) -> T {
    if at_least(a, b) {
        a
    } else {
        b
    }
}

/// The least of three scalars is the same however they are paired.
pub proof fn lemma_least_associates<T: Scalar>(a: T, b: T, c: T)
    requires
        ordered::<T>(),
        comparable(a, b),
        comparable(b, c),
        comparable(a, c),
    ensures
        alike(least(least(a, b), c), least(a, least(b, c))),
{
    assert(below(a, b) <==> above(b, a));
    assert(below(b, a) <==> above(a, b));
    assert(below(b, c) <==> above(c, b));
    assert(below(c, b) <==> above(b, c));
    assert(below(a, c) <==> above(c, a));
    assert(below(c, a) <==> above(a, c));
    assert(level(a, b) <==> level(b, a));
    assert(level(b, c) <==> level(c, b));
    assert(level(a, c) <==> level(c, a));
    if at_most(a, b) && at_most(b, c) {
        assert(at_most(a, c));
    }
    if at_most(a, b) && !at_most(a, c) {
        // `c` is below `a`, which is at most `b`.
        assert(below(c, a));
        assert(below(c, b));
    }
    if !at_most(a, b) && at_most(b, c) {
        // `b` is below `a`.
        assert(below(b, a));
    }
    if !at_most(a, b) && !at_most(b, c) {
        // `c` is below `b`, which is below `a`.
        assert(below(c, b));
        assert(below(b, a));
        assert(at_most(b, a));
        assert(below(c, a));
    }
}

/// The greatest of three scalars is the same however they are paired.
pub proof fn lemma_greatest_associates<T: Scalar>(a: T, b: T, c: T)
    requires
        ordered::<T>(),
        comparable(a, b),
        comparable(b, c),
        comparable(a, c),
    ensures
        alike(greatest(greatest(a, b), c), greatest(a, greatest(b, c))),
{
    assert(below(a, b) <==> above(b, a));
    assert(below(b, a) <==> above(a, b));
    assert(below(b, c) <==> above(c, b));
    assert(below(c, b) <==> above(b, c));
    assert(below(a, c) <==> above(c, a));
    assert(below(c, a) <==> above(a, c));
    assert(level(a, b) <==> level(b, a));
    assert(level(b, c) <==> level(c, b));
    assert(level(a, c) <==> level(c, a));
    if at_least(a, b) && at_least(b, c) {
        assert(at_most(c, b) && at_most(b, a));
        assert(at_most(c, a));
    }
    if at_least(a, b) && !at_least(a, c) {
        assert(below(a, c));
        assert(at_most(b, a));
        assert(below(b, c));
    }
    if !at_least(a, b) && at_least(b, c) {
        assert(below(a, b));
    }
    if !at_least(a, b) && !at_least(b, c) {
        assert(below(a, b));
        assert(below(b, c));
        assert(at_most(a, b));
        assert(below(a, c));
    }
}

} // verus!
