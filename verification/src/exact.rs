//! What holds of the renderer's formulas where the scalar's arithmetic is
//! exact: where sums and products are those of a ring, as they are for
//! whole numbers and fractions, and as they are for binary floating-point
//! numbers only up to rounding.
use vstd::prelude::*;
use vstd::std_specs::ops::{AddSpec, SubSpec, MulSpec, DivSpec, NegSpec};
use crate::aabb::thickened;
use crate::interval::{Interval, half};
use crate::math::{inner, reflect_spec, scaled, reciprocal};
use crate::scalar::{
    Scalar, small, count, ordered, comparable, at_most, below, above, level, thickness_spec,
};

verus! {

/// `a + b`.
pub open spec fn plus<T: Scalar>(a: T, b: T) -> T {
    a.add_spec(b)
}

/// `a - b`.
pub open spec fn minus<T: Scalar>(a: T, b: T) -> T {
    a.sub_spec(b)
}

/// `a * b`.
pub open spec fn times<T: Scalar>(a: T, b: T) -> T {
    a.mul_spec(b)
}

/// `-a`.
pub open spec fn opposite<T: Scalar>(a: T) -> T {
    a.neg_spec()
}

/// The arithmetic of `T` is that of a ring: sums and products may be
/// regrouped and reordered, zero and one change nothing, a scalar and its
/// opposite cancel, a product spreads over a sum, and two is one and one.
#[verifier::opaque]
pub open spec fn exact<T: Scalar>() -> bool {
    &&& forall|a: T, b: T| #[trigger] plus(a, b) == plus(b, a)
    &&& forall|a: T, b: T, c: T| #[trigger] plus(plus(a, b), c) == plus(a, plus(b, c))
    &&& forall|a: T| #[trigger] plus(small::<T>(0), a) == a
    &&& forall|a: T| #[trigger] plus(a, opposite(a)) == small::<T>(0)
    &&& forall|a: T, b: T| #[trigger] minus(a, b) == plus(a, opposite(b))
    &&& forall|a: T, b: T| #[trigger] times(a, b) == times(b, a)
    &&& forall|a: T, b: T, c: T| #[trigger] times(times(a, b), c) == times(a, times(b, c))
    &&& forall|a: T| #[trigger] times(a, small::<T>(1)) == a
    &&& forall|a: T, b: T, c: T| #[trigger] times(a, plus(b, c)) == plus(times(a, b), times(a, c))
    &&& forall|a: T, b: T| #[trigger] times(a, opposite(b)) == opposite(times(a, b))
    &&& forall|a: T, b: T| #[trigger] opposite(plus(a, b)) == plus(opposite(a), opposite(b))
    &&& small::<T>(2) == plus(small::<T>(1), small::<T>(1))
}

/// One component of a mirrored direction times the normal's.
pub proof fn lemma_mirrored_component<T: Scalar>(v: T, n: T, m: T)
    requires
        exact::<T>(),
    ensures
        times(minus(v, times(n, m)), n) == minus(times(v, n), times(m, times(n, n))),
{
    reveal(exact);
    let nm = times(n, m);
    assert(minus(v, nm) == plus(v, opposite(nm)));
    assert(times(plus(v, opposite(nm)), n) == times(n, plus(v, opposite(nm))));
    assert(times(n, plus(v, opposite(nm))) == plus(times(n, v), times(n, opposite(nm))));
    assert(times(n, opposite(nm)) == opposite(times(n, nm)));
    assert(times(n, nm) == times(nm, n));
    assert(times(times(n, m), n) == times(n, times(m, n)));
    assert(times(n, times(m, n)) == times(times(m, n), n));
    assert(times(times(m, n), n) == times(m, times(n, n)));
    assert(times(n, v) == times(v, n));
    assert(minus(times(v, n), times(m, times(n, n))) == plus(
        times(v, n),
        opposite(times(m, times(n, n))),
    ));
}

/// The sum of three scalars, added up from zero as a product of two rows
/// is.
pub open spec fn sum3<T: Scalar>(a: T, b: T, c: T) -> T {
    plus(plus(plus(small::<T>(0), a), b), c)
}

/// A sum of three differences is the difference of the sums.
pub proof fn lemma_sum_of_differences<T: Scalar>(a: T, b: T, c: T, x: T, y: T, z: T)
    requires
        exact::<T>(),
    ensures
        sum3(minus(a, x), minus(b, y), minus(c, z)) == minus(sum3(a, b, c), sum3(x, y, z)),
{
    reveal(exact);
    let none = small::<T>(0);
    assert(plus(none, a) == a);
    assert(plus(none, x) == x);
    assert(plus(none, minus(a, x)) == minus(a, x));
    assert(minus(a, x) == plus(a, opposite(x)));
    assert(minus(b, y) == plus(b, opposite(y)));
    assert(minus(c, z) == plus(c, opposite(z)));
    // (a - x) + (b - y) = (a + b) - (x + y)
    let ab = plus(a, b);
    let xy = plus(x, y);
    assert(plus(plus(a, opposite(x)), plus(b, opposite(y))) == plus(
        a,
        plus(opposite(x), plus(b, opposite(y))),
    ));
    assert(plus(opposite(x), plus(b, opposite(y))) == plus(plus(opposite(x), b), opposite(y)));
    assert(plus(opposite(x), b) == plus(b, opposite(x)));
    assert(plus(plus(b, opposite(x)), opposite(y)) == plus(b, plus(opposite(x), opposite(y))));
    assert(opposite(xy) == plus(opposite(x), opposite(y)));
    assert(plus(a, plus(b, opposite(xy))) == plus(ab, opposite(xy)));
    let first = plus(minus(a, x), minus(b, y));
    assert(first == plus(ab, opposite(xy)));
    // ((a + b) - (x + y)) + (c - z) = ((a + b) + c) - ((x + y) + z)
    let abc = plus(ab, c);
    let xyz = plus(xy, z);
    assert(plus(plus(ab, opposite(xy)), plus(c, opposite(z))) == plus(
        ab,
        plus(opposite(xy), plus(c, opposite(z))),
    ));
    assert(plus(opposite(xy), plus(c, opposite(z))) == plus(plus(opposite(xy), c), opposite(z)));
    assert(plus(opposite(xy), c) == plus(c, opposite(xy)));
    assert(plus(plus(c, opposite(xy)), opposite(z)) == plus(c, plus(opposite(xy), opposite(z))));
    assert(opposite(xyz) == plus(opposite(xy), opposite(z)));
    assert(plus(ab, plus(c, opposite(xyz))) == plus(abc, opposite(xyz)));
    assert(plus(first, minus(c, z)) == plus(abc, opposite(xyz)));
    assert(minus(abc, xyz) == plus(abc, opposite(xyz)));
}

/// A product spreads over a sum of three.
pub proof fn lemma_product_of_sum<T: Scalar>(m: T, x: T, y: T, z: T)
    requires
        exact::<T>(),
    ensures
        sum3(times(m, x), times(m, y), times(m, z)) == times(m, sum3(x, y, z)),
{
    reveal(exact);
    let none = small::<T>(0);
    assert(plus(none, x) == x);
    assert(plus(none, times(m, x)) == times(m, x));
    assert(times(m, plus(x, y)) == plus(times(m, x), times(m, y)));
    assert(times(m, plus(plus(x, y), z)) == plus(times(m, plus(x, y)), times(m, z)));
}

/// One changes nothing in a product.
pub proof fn lemma_times_one<T: Scalar>(a: T)
    requires
        exact::<T>(),
    ensures
        times(a, small::<T>(1)) == a,
{
    reveal(exact);
}

/// A scalar less its double is its opposite.
pub proof fn lemma_less_its_double<T: Scalar>(d: T)
    requires
        exact::<T>(),
    ensures
        minus(d, times(small::<T>(2), d)) == opposite(d),
{
    reveal(exact);
    let one = small::<T>(1);
    let two = small::<T>(2);
    assert(times(two, d) == times(d, two));
    assert(times(d, plus(one, one)) == plus(times(d, one), times(d, one)));
    assert(times(d, one) == d);
    let dd = plus(d, d);
    assert(minus(d, dd) == plus(d, opposite(dd)));
    assert(opposite(dd) == plus(opposite(d), opposite(d)));
    assert(plus(plus(d, opposite(d)), opposite(d)) == plus(d, plus(opposite(d), opposite(d))));
    assert(plus(d, opposite(d)) == small::<T>(0));
    assert(plus(small::<T>(0), opposite(d)) == opposite(d));
}

/// A direction mirrored in a plane keeps its size along the plane's unit
/// normal and turns its sign there: the product of the mirrored direction
/// with the normal is the opposite of the direction's.
pub proof fn lemma_reflect_turns_the_normal_part<T: Scalar>(v: Seq<T>, n: Seq<T>)
    requires
        exact::<T>(),
        v.len() == 3,
        n.len() == 3,
        inner(n, n, 3) == small::<T>(1),
    ensures
        inner(reflect_spec(v, n), n, 3) == opposite(inner(v, n, 3)),
{
    reveal_with_fuel(inner, 4);
    let d = inner(v, n, 3);
    let m = times(small::<T>(2), d);
    let r = reflect_spec(v, n);
    assert(r[0] == minus(v[0], times(n[0], m)));
    assert(r[1] == minus(v[1], times(n[1], m)));
    assert(r[2] == minus(v[2], times(n[2], m)));
    lemma_mirrored_component(v[0], n[0], m);
    lemma_mirrored_component(v[1], n[1], m);
    lemma_mirrored_component(v[2], n[2], m);
    let p = sum3(times(v[0], n[0]), times(v[1], n[1]), times(v[2], n[2]));
    let q = sum3(times(n[0], n[0]), times(n[1], n[1]), times(n[2], n[2]));
    assert(d == p);
    assert(inner(n, n, 3) == q);
    assert(inner(r, n, 3) == sum3(times(r[0], n[0]), times(r[1], n[1]), times(r[2], n[2])));
    lemma_sum_of_differences(
        times(v[0], n[0]),
        times(v[1], n[1]),
        times(v[2], n[2]),
        times(m, times(n[0], n[0])),
        times(m, times(n[1], n[1])),
        times(m, times(n[2], n[2])),
    );
    lemma_product_of_sum(m, times(n[0], n[0]), times(n[1], n[1]), times(n[2], n[2]));
    lemma_times_one(m);
    lemma_less_its_double(d);
}

/// A sum does not depend on the order of its two parts.
pub proof fn lemma_swap<T: Scalar>(a: T, b: T)
    requires
        exact::<T>(),
    ensures
        plus(a, b) == plus(b, a),
{
    reveal(exact);
}

/// A sum of three does not depend on how they are grouped.
pub proof fn lemma_regroup<T: Scalar>(a: T, b: T, c: T)
    requires
        exact::<T>(),
    ensures
        plus(plus(a, b), c) == plus(a, plus(b, c)),
{
    reveal(exact);
}

/// A scalar and its opposite cancel.
pub proof fn lemma_cancel<T: Scalar>(a: T)
    requires
        exact::<T>(),
    ensures
        plus(a, opposite(a)) == small::<T>(0),
{
    reveal(exact);
}

/// Taking away is adding the opposite.
pub proof fn lemma_minus<T: Scalar>(a: T, b: T)
    requires
        exact::<T>(),
    ensures
        minus(a, b) == plus(a, opposite(b)),
{
    reveal(exact);
}

/// The opposite of a sum is the sum of the opposites.
pub proof fn lemma_opposite_of_sum<T: Scalar>(a: T, b: T)
    requires
        exact::<T>(),
    ensures
        opposite(plus(a, b)) == plus(opposite(a), opposite(b)),
{
    reveal(exact);
}

/// Zero changes nothing in a sum.
pub proof fn lemma_plus_none<T: Scalar>(a: T)
    requires
        exact::<T>(),
    ensures
        plus(small::<T>(0), a) == a,
        plus(a, small::<T>(0)) == a,
{
    reveal(exact);
}

/// The opposite of the opposite is the scalar itself.
pub proof fn lemma_double_opposite<T: Scalar>(a: T)
    requires
        exact::<T>(),
    ensures
        opposite(opposite(a)) == a,
{
    let b = opposite(a);
    let c = opposite(b);
    // a = a + (b + c) = (a + b) + c = c
    lemma_cancel(a);
    lemma_cancel(b);
    lemma_regroup(a, b, c);
    lemma_plus_none(a);
    lemma_plus_none(c);
}

/// Two sums added are the sums of their first and of their second parts
/// added.
pub proof fn lemma_interchange<T: Scalar>(a: T, b: T, c: T, d: T)
    requires
        exact::<T>(),
    ensures
        plus(plus(a, b), plus(c, d)) == plus(plus(a, c), plus(b, d)),
{
    // (a + b) + (c + d) = a + (b + (c + d)) = a + ((b + c) + d)
    //   = a + ((c + b) + d) = a + (c + (b + d)) = (a + c) + (b + d)
    lemma_regroup(a, b, plus(c, d));
    lemma_regroup(b, c, d);
    lemma_swap(b, c);
    lemma_regroup(c, b, d);
    lemma_regroup(a, c, plus(b, d));
}

/// Widening a range keeps its middle: the sum of its ends stays what it
/// was, and so does half of it.
pub proof fn lemma_pad_keeps_the_middle<T: Scalar>(i: Interval<T>, x: T)
    requires
        exact::<T>(),
    ensures
        plus(i.padded_spec(x).min, i.padded_spec(x).max) == plus(i.min, i.max),
        half(plus(i.padded_spec(x).min, i.padded_spec(x).max)) == half(plus(i.min, i.max)),
{
    let h = half(x);
    lemma_minus(i.min, h);
    lemma_interchange(i.min, opposite(h), i.max, h);
    lemma_swap(opposite(h), h);
    lemma_cancel(h);
    lemma_plus_none(plus(i.min, i.max));
}

/// The square of a product is the product of the squares.
pub proof fn lemma_square_of_product<T: Scalar>(a: T, b: T)
    requires
        exact::<T>(),
    ensures
        times(times(a, b), times(a, b)) == times(times(b, b), times(a, a)),
{
    reveal(exact);
    assert(times(times(a, b), times(a, b)) == times(a, times(b, times(a, b))));
    assert(times(b, times(a, b)) == times(times(b, a), b));
    assert(times(b, a) == times(a, b));
    assert(times(times(a, b), b) == times(a, times(b, b)));
    assert(times(a, times(a, times(b, b))) == times(times(a, a), times(b, b)));
    assert(times(times(a, a), times(b, b)) == times(times(b, b), times(a, a)));
}

/// A vector divided by its length has length one: the product with itself
/// of a vector times one over `len` is one, where `len` times itself is
/// the product of the vector with itself and `len` has a reciprocal.
pub proof fn lemma_unit_has_length_one<T: Scalar>(v: Seq<T>, len: T)
    requires
        exact::<T>(),
        v.len() == 3,
        times(len, len) == inner(v, v, 3),
        times(len, reciprocal(len)) == small::<T>(1),
    ensures
        inner(scaled(v, reciprocal(len)), scaled(v, reciprocal(len)), 3) == small::<T>(1),
{
    reveal_with_fuel(inner, 4);
    let r = reciprocal(len);
    let u = scaled(v, r);
    assert(u[0] == times(v[0], r) && u[1] == times(v[1], r) && u[2] == times(v[2], r));
    lemma_square_of_product(v[0], r);
    lemma_square_of_product(v[1], r);
    lemma_square_of_product(v[2], r);
    let rr = times(r, r);
    lemma_product_of_sum(rr, times(v[0], v[0]), times(v[1], v[1]), times(v[2], v[2]));
    assert(inner(u, u, 3) == times(rr, times(len, len)));
    lemma_square_of_product(len, r);
    lemma_times_one(small::<T>(1));
}

/// Sums and products keep the order: adding the same to both sides keeps
/// what is at most something at most that, and so does multiplying both
/// by what is at least zero. Halves add up to the whole.
#[verifier::opaque]
pub open spec fn steady<T: Scalar>() -> bool {
    &&& forall|a: T, b: T, c: T| #[trigger] at_most(plus(a, c), plus(b, c)) <== at_most(a, b)
    &&& forall|a: T, b: T, c: T|
        #[trigger] at_most(times(c, a), times(c, b)) <== at_most(a, b) && at_most(small::<T>(0), c)
    &&& forall|a: T| #[trigger] plus(half(a), half(a)) == a
}

/// A side of a box is at least as long as the least thickness, where it is
/// not turned inside out and its length can be compared with that
/// thickness.
pub proof fn lemma_side_is_thick<T: Scalar>(i: Interval<T>)
    requires
        exact::<T>(),
        steady::<T>(),
        ordered::<T>(),
        at_most(small::<T>(0), minus(i.max, i.min)),
        comparable(minus(i.max, i.min), thickness_spec::<T>()),
    ensures
        at_most(thickness_spec::<T>(), minus(thickened(i).max, thickened(i).min)),
{
    let size = minus(i.max, i.min);
    let delta = thickness_spec::<T>();
    if below(size, delta) {
        lemma_padded_size(i, delta);
        reveal(steady);
        assert(at_most(plus(small::<T>(0), delta), plus(size, delta)));
        lemma_plus_none(delta);
    } else {
        assert(below(size, delta) <==> above(delta, size));
        assert(level(size, delta) <==> level(delta, size));
        assert(below(delta, size) <==> above(size, delta));
    }
}

/// Halves add up to the whole.
pub proof fn lemma_halves<T: Scalar>(a: T)
    requires
        steady::<T>(),
    ensures
        plus(half(a), half(a)) == a,
{
    reveal(steady);
}

/// A range widened by `x` is longer by `x`.
pub proof fn lemma_padded_size<T: Scalar>(i: Interval<T>, x: T)
    requires
        exact::<T>(),
        steady::<T>(),
    ensures
        minus(i.padded_spec(x).max, i.padded_spec(x).min) == plus(minus(i.max, i.min), x),
{
    let h = half(x);
    let lo = minus(i.min, h);
    let hi = plus(i.max, h);
    // hi - lo = (max + h) + -(min + -h) = (max + h) + (-min + h)
    //   = (max + -min) + (h + h)
    lemma_minus(i.min, h);
    lemma_minus(hi, lo);
    lemma_opposite_of_sum(i.min, opposite(h));
    lemma_double_opposite(h);
    lemma_interchange(i.max, h, opposite(i.min), h);
    lemma_minus(i.max, i.min);
    lemma_halves(x);
}

} // verus!
