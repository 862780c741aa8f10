//! Vectors of a fixed number of scalar components, and their algebra.
use vstd::prelude::*;
use vstd::std_specs::ops::{
    AddSpec, AddSpecImpl, SubSpec, SubSpecImpl, MulSpec, MulSpecImpl, DivSpec, DivSpecImpl, NegSpec,
    NegSpecImpl,
};
use core::ops::{Add, Sub, Mul, Div, Neg, Index};
use vstd::std_specs::cmp::{PartialEqSpec, PartialEqSpecImpl};
use crate::scalar::{
    Scalar, total, lawful, small, below, above, magnitude, epsilon_spec, epsilon, abs, lesser,
    lesser_spec,
};

verus! {

/// An array of `N` values, the `i`-th of them made by `gen(i)`.
pub fn gen_arr<const N: usize, T: Default + Copy, F>(gen: F) -> (arr: [T; N]) where
    F: Fn(usize) -> T,

    requires
        forall|i: usize| i < N ==> call_requires(gen, (i,)),
    ensures
        forall|i: usize| i < N ==> call_ensures(gen, (i,), #[trigger] arr[i as int]),
{
    let mut arr: [T; N] = [T::default();N];
    let mut i: usize = 0;
    while i < N
        invariant
            0 <= i <= N,
            forall|k: usize| k < N ==> call_requires(gen, (k,)),
            forall|k: usize| k < i ==> call_ensures(gen, (k,), #[trigger] arr[k as int]),
        decreases N - i,
    {
        let t: T = gen(i);
        arr[i] = t;
        i += 1;
    }
    arr
}

/// `N` scalars in a row: a point, a direction, a colour or a surface
/// coordinate.
#[derive(Debug, Clone, Copy)]
pub struct Vector<T, const N: usize>(pub [T; N]);

impl<T, const N: usize> View for Vector<T, N> {
    type V = Seq<T>;

    open spec fn view(&self) -> Seq<T> {
        self.0@
    }
}

/// The componentwise sum of two rows.
pub open spec fn sum<T: Scalar>(a: Seq<T>, b: Seq<T>) -> Seq<T> {
    Seq::new(a.len(), |i: int| a[i].add_spec(b[i]))
}

/// The componentwise difference of two rows.
pub open spec fn difference<T: Scalar>(a: Seq<T>, b: Seq<T>) -> Seq<T> {
    Seq::new(a.len(), |i: int| a[i].sub_spec(b[i]))
}

/// The componentwise product of two rows.
pub open spec fn product<T: Scalar>(a: Seq<T>, b: Seq<T>) -> Seq<T> {
    Seq::new(a.len(), |i: int| a[i].mul_spec(b[i]))
}

/// Each component of `a` times `t`.
pub open spec fn scaled<T: Scalar>(a: Seq<T>, t: T) -> Seq<T> {
    Seq::new(a.len(), |i: int| a[i].mul_spec(t))
}

/// Each component of `a` plus `t`.
pub open spec fn shifted<T: Scalar>(a: Seq<T>, t: T) -> Seq<T> {
    Seq::new(a.len(), |i: int| a[i].add_spec(t))
}

/// Each component of `a` with its sign turned.
pub open spec fn negated<T: Scalar>(a: Seq<T>) -> Seq<T> {
    Seq::new(a.len(), |i: int| a[i].neg_spec())
}

/// The reciprocal of `t`, by which a division multiplies.
pub open spec fn reciprocal<T: Scalar>(t: T) -> T {
    small::<T>(1).div_spec(t)
}

/// The sum of the products of the first `n` components, taken in order from
/// zero.
pub open spec fn inner<T: Scalar>(a: Seq<T>, b: Seq<T>, n: nat) -> T
    decreases n,
{
    if n == 0 {
        small::<T>(0)
    } else {
        inner(a, b, (n - 1) as nat).add_spec(a[n - 1].mul_spec(b[n - 1]))
    }
}

/// Hermite smoothing of one component: `e * e * (3 - 2 * e)`.
pub open spec fn smooth_step<T: Scalar>(e: T) -> T {
    e.mul_spec(e).mul_spec(small::<T>(3).sub_spec(small::<T>(2).mul_spec(e)))
}

/// Whether two components differ by less than the tolerance, or cannot be
/// told apart by the order.
pub open spec fn close<T: Scalar>(a: T, b: T) -> bool {
    !crate::scalar::at_least(magnitude(a.sub_spec(b)), epsilon_spec::<T>())
}

impl<T: Scalar, const N: usize> Vector<T, N> {
    /// The vector whose view is `s`.
    pub open spec fn of(s: Seq<T>) -> Self {
        choose|r: Self| r@ == s
    }

    /// A vector is the one that `of` picks for its own view.
    pub proof fn lemma_of(self)
        ensures
            Self::of(self@) == self,
    {
        let r = Self::of(self@);
        assert(r@ == self@);
        assert(r.0 =~= self.0);
    }

    /// The vector with every component `t`.
    pub fn repeat(t: T) -> (r: Self)
        ensures
            r@ == Seq::new(N as nat, |i: int| t),
    {
        let r = Vector([t;N]);
        assert(r@ =~= Seq::new(N as nat, |i: int| t));
        r
    }

    /// Turns the sign of every component in place.
    pub fn negate(&mut self)
        requires
            total::<T>(),
        ensures
            lawful::<T>() ==> final(self)@ == negated(old(self)@),
    {
        let mut i: usize = 0;
        while i < N
            invariant
                0 <= i <= N,
                total::<T>(),
                forall|k: int| i <= k < N ==> self.0[k] == old(self).0[k],
                lawful::<T>() ==> forall|k: int|
                    0 <= k < i ==> #[trigger] self.0[k] == old(self).0[k].neg_spec(),
            decreases N - i,
        {
            self.0[i] = self.0[i].neg();
            i += 1;
        }
        assert(lawful::<T>() ==> self@ =~= negated(old(self)@));
    }

    /// The dot product with `v`.
    pub fn dot(&self, v: &Self) -> (r: T)
        requires
            total::<T>(),
        ensures
            lawful::<T>() ==> r == inner(self@, v@, N as nat),
    {
        let mut acc: T = T::from(0u8);
        let mut i: usize = 0;
        while i < N
            invariant
                0 <= i <= N,
                total::<T>(),
                lawful::<T>() ==> acc == inner(self@, v@, i as nat),
            decreases N - i,
        {
            acc = acc + self.0[i] * v.0[i];
            i += 1;
        }
        acc
    }

    /// The square of the length.
    pub fn length_squared(&self) -> (r: T)
        requires
            total::<T>(),
        ensures
            lawful::<T>() ==> r == inner(self@, self@, N as nat),
    {
        self.dot(self)
    }

    /// Whether every component is within the tolerance of zero.
    pub fn near_zero(&self) -> (r: bool)
        requires
            total::<T>(),
        ensures
            lawful::<T>() ==> (r <==> forall|i: int|
                0 <= i < N ==> below(magnitude(#[trigger] self@[i]), epsilon_spec::<T>())),
    {
        let eps: T = epsilon();
        let mut i: usize = 0;
        while i < N
            invariant
                0 <= i <= N,
                total::<T>(),
                lawful::<T>() ==> eps == epsilon_spec::<T>(),
                lawful::<T>() ==> forall|k: int|
                    0 <= k < i ==> below(magnitude(#[trigger] self@[k]), epsilon_spec::<T>()),
            decreases N - i,
        {
            if !(abs(self.0[i]) < eps) {
                assert(lawful::<T>() ==> !below(magnitude(self@[i as int]), epsilon_spec::<T>()));
                return false;
            }
            i += 1;
        }
        true
    }

    /// The magnitude of every component.
    pub fn abs(&self) -> (r: Self)
        requires
            total::<T>(),
        ensures
            lawful::<T>() ==> r@ == Seq::new(N as nat, |i: int| magnitude(self@[i])),
    {
        let mut out = *self;
        let mut i: usize = 0;
        while i < N
            invariant
                0 <= i <= N,
                total::<T>(),
                forall|k: int| i <= k < N ==> out.0[k] == self.0[k],
                lawful::<T>() ==> forall|k: int|
                    0 <= k < i ==> #[trigger] out.0[k] == magnitude(self.0[k]),
            decreases N - i,
        {
            let m: T = abs(self.0[i]);
            out.0[i] = m;
            i += 1;
        }
        assert(lawful::<T>() ==> out@ =~= Seq::new(N as nat, |i: int| magnitude(self@[i])));
        out
    }

    /// Hermite smoothing of every component, in place.
    pub fn smooth(&mut self)
        requires
            total::<T>(),
        ensures
            lawful::<T>() ==> final(self)@ == Seq::new(
                N as nat,
                |i: int| smooth_step(old(self)@[i]),
            ),
    {
        let s = self.smoothed();
        *self = s;
    }

    /// Hermite smoothing of every component.
    pub fn smoothed(&self) -> (r: Self)
        requires
            total::<T>(),
        ensures
            lawful::<T>() ==> r@ == Seq::new(N as nat, |i: int| smooth_step(self@[i])),
    {
        let mut out = *self;
        let mut i: usize = 0;
        while i < N
            invariant
                0 <= i <= N,
                total::<T>(),
                forall|k: int| i <= k < N ==> out.0[k] == self.0[k],
                lawful::<T>() ==> forall|k: int|
                    0 <= k < i ==> #[trigger] out.0[k] == smooth_step(self.0[k]),
            decreases N - i,
        {
            let e: T = self.0[i];
            out.0[i] = e * e * (T::from(3u8) - T::from(2u8) * e);
            i += 1;
        }
        assert(lawful::<T>() ==> out@ =~= Seq::new(N as nat, |i: int| smooth_step(self@[i])));
        out
    }

    /// Whether every component is close to that of `other`.
    pub fn approx_eq(&self, other: &Self) -> (r: bool)
        requires
            total::<T>(),
        ensures
            lawful::<T>() ==> (r <==> forall|i: int|
                0 <= i < N ==> close(#[trigger] self@[i], other@[i])),
    {
        let eps: T = epsilon();
        let mut i: usize = 0;
        while i < N
            invariant
                0 <= i <= N,
                total::<T>(),
                lawful::<T>() ==> eps == epsilon_spec::<T>(),
                lawful::<T>() ==> forall|k: int| 0 <= k < i ==> close(#[trigger] self@[k], other@[k]),
            decreases N - i,
        {
            if abs(self.0[i] - other.0[i]) >= eps {
                assert(lawful::<T>() ==> !close(self@[i as int], other@[i as int]));
                return false;
            }
            i += 1;
        }
        true
    }

    /// The component at `i`.
    pub fn get(&self, i: usize) -> (r: T)
        requires
            i < N,
        ensures
            r == self@[i as int],
    {
        self.0[i]
    }

    /// Replaces the component at `i`.
    pub fn set(&mut self, i: usize, t: T)
        requires
            i < N,
        ensures
            final(self)@ == old(self)@.update(i as int, t),
    {
        self.0[i] = t;
        assert(self@ =~= old(self)@.update(i as int, t));
    }

    /// Adds `v` in place.
    pub fn add_assign(&mut self, v: Self)
        requires
            total::<T>(),
        ensures
            lawful::<T>() ==> final(self)@ == sum(old(self)@, v@),
    {
        let r = *self + v;
        *self = r;
    }

    /// Subtracts `v` in place.
    pub fn sub_assign(&mut self, v: Self)
        requires
            total::<T>(),
        ensures
            lawful::<T>() ==> final(self)@ == difference(old(self)@, v@),
    {
        let r = *self - v;
        *self = r;
    }

    /// Multiplies every component by `t`, in place.
    pub fn mul_assign(&mut self, t: T)
        requires
            total::<T>(),
        ensures
            lawful::<T>() ==> final(self)@ == scaled(old(self)@, t),
    {
        let r = *self * t;
        *self = r;
    }

    /// Multiplies componentwise by `v`, in place.
    pub fn mul_assign_vec(&mut self, v: Self)
        requires
            total::<T>(),
        ensures
            lawful::<T>() ==> final(self)@ == product(old(self)@, v@),
    {
        let r = *self * v;
        *self = r;
    }

    /// Divides every component by `t`, in place: multiplies by its reciprocal.
    pub fn div_assign(&mut self, t: T)
        requires
            total::<T>(),
        ensures
            lawful::<T>() ==> final(self)@ == scaled(old(self)@, reciprocal(t)),
    {
        let r = *self / t;
        *self = r;
    }
}

impl<T: Scalar, const N: usize> PartialEq for Vector<T, N> {
    /// Exact equality, component by component.
    fn eq(&self, other: &Self) -> (r: bool) {
        let mut i: usize = 0;
        while i < N
            invariant
                0 <= i <= N,
                lawful::<T>() ==> forall|k: int| 0 <= k < i ==> (#[trigger] self@[k]).eq_spec(&other@[k]),
            decreases N - i,
        {
            if !(self.0[i] == other.0[i]) {
                assert(lawful::<T>() ==> !self@[i as int].eq_spec(&other@[i as int]));
                return false;
            }
            i += 1;
        }
        true
    }
}

impl<T: Scalar, const N: usize> PartialEqSpecImpl for Vector<T, N> {
    open spec fn obeys_eq_spec() -> bool {
        lawful::<T>()
    }

    open spec fn eq_spec(&self, other: &Self) -> bool {
        forall|i: int| 0 <= i < N ==> (#[trigger] self@[i]).eq_spec(&other@[i])
    }
}

impl<T: Scalar, const N: usize> Default for Vector<T, N> {
    fn default() -> (r: Self)
        ensures
            lawful::<T>() ==> r@ == Seq::new(N as nat, |i: int| small::<T>(0)),
    {
        let r = Vector([T::from(0u8);N]);
        assert(lawful::<T>() ==> r@ =~= Seq::new(N as nat, |i: int| small::<T>(0)));
        r
    }
}

impl<T: Scalar, const N: usize> Neg for Vector<T, N> {
    type Output = Vector<T, N>;

    fn neg(self) -> (r: Self)
        ensures
            lawful::<T>() ==> r@ == negated(self@),
    {
        let mut out = self;
        out.negate();
        proof {
            if lawful::<T>() {
                out.lemma_of();
            }
        }
        out
    }
}

impl<T: Scalar, const N: usize> NegSpecImpl for Vector<T, N> {
    open spec fn obeys_neg_spec() -> bool {
        lawful::<T>()
    }

    open spec fn neg_req(self) -> bool {
        total::<T>()
    }

    open spec fn neg_spec(self) -> Self {
        Self::of(negated(self@))
    }
}

impl<T: Scalar, const N: usize> Add for Vector<T, N> {
    type Output = Vector<T, N>;

    fn add(self, v: Self) -> (r: Self)
        ensures
            lawful::<T>() ==> r@ == sum(self@, v@),
    {
        let mut out = self;
        let mut i: usize = 0;
        while i < N
            invariant
                0 <= i <= N,
                total::<T>(),
                forall|k: int| i <= k < N ==> out.0[k] == self.0[k],
                lawful::<T>() ==> forall|k: int|
                    0 <= k < i ==> #[trigger] out.0[k] == self.0[k].add_spec(v.0[k]),
            decreases N - i,
        {
            out.0[i] = self.0[i] + v.0[i];
            i += 1;
        }
        proof {
            if lawful::<T>() {
                assert(out@ =~= sum(self@, v@));
                out.lemma_of();
            }
        }
        out
    }
}

impl<T: Scalar, const N: usize> AddSpecImpl for Vector<T, N> {
    open spec fn obeys_add_spec() -> bool {
        lawful::<T>()
    }

    open spec fn add_req(self, v: Self) -> bool {
        total::<T>()
    }

    open spec fn add_spec(self, v: Self) -> Self {
        Self::of(sum(self@, v@))
    }
}

impl<T: Scalar, const N: usize> Sub for Vector<T, N> {
    type Output = Vector<T, N>;

    fn sub(self, v: Self) -> (r: Self)
        ensures
            lawful::<T>() ==> r@ == difference(self@, v@),
    {
        let mut out = self;
        let mut i: usize = 0;
        while i < N
            invariant
                0 <= i <= N,
                total::<T>(),
                forall|k: int| i <= k < N ==> out.0[k] == self.0[k],
                lawful::<T>() ==> forall|k: int|
                    0 <= k < i ==> #[trigger] out.0[k] == self.0[k].sub_spec(v.0[k]),
            decreases N - i,
        {
            out.0[i] = self.0[i] - v.0[i];
            i += 1;
        }
        proof {
            if lawful::<T>() {
                assert(out@ =~= difference(self@, v@));
                out.lemma_of();
            }
        }
        out
    }
}

impl<T: Scalar, const N: usize> SubSpecImpl for Vector<T, N> {
    open spec fn obeys_sub_spec() -> bool {
        lawful::<T>()
    }

    open spec fn sub_req(self, v: Self) -> bool {
        total::<T>()
    }

    open spec fn sub_spec(self, v: Self) -> Self {
        Self::of(difference(self@, v@))
    }
}

impl<T: Scalar, const N: usize> Mul for Vector<T, N> {
    type Output = Vector<T, N>;

    fn mul(self, v: Self) -> (r: Self)
        ensures
            lawful::<T>() ==> r@ == product(self@, v@),
    {
        let mut out = self;
        let mut i: usize = 0;
        while i < N
            invariant
                0 <= i <= N,
                total::<T>(),
                forall|k: int| i <= k < N ==> out.0[k] == self.0[k],
                lawful::<T>() ==> forall|k: int|
                    0 <= k < i ==> #[trigger] out.0[k] == self.0[k].mul_spec(v.0[k]),
            decreases N - i,
        {
            out.0[i] = self.0[i] * v.0[i];
            i += 1;
        }
        proof {
            if lawful::<T>() {
                assert(out@ =~= product(self@, v@));
                out.lemma_of();
            }
        }
        out
    }
}

impl<T: Scalar, const N: usize> MulSpecImpl for Vector<T, N> {
    open spec fn obeys_mul_spec() -> bool {
        lawful::<T>()
    }

    open spec fn mul_req(self, v: Self) -> bool {
        total::<T>()
    }

    open spec fn mul_spec(self, v: Self) -> Self {
        Self::of(product(self@, v@))
    }
}

impl<T: Scalar, const N: usize> Mul<T> for Vector<T, N> {
    type Output = Vector<T, N>;

    fn mul(self, t: T) -> (r: Self)
        ensures
            lawful::<T>() ==> r@ == scaled(self@, t),
    {
        let mut out = self;
        let mut i: usize = 0;
        while i < N
            invariant
                0 <= i <= N,
                total::<T>(),
                forall|k: int| i <= k < N ==> out.0[k] == self.0[k],
                lawful::<T>() ==> forall|k: int|
                    0 <= k < i ==> #[trigger] out.0[k] == self.0[k].mul_spec(t),
            decreases N - i,
        {
            out.0[i] = self.0[i] * t;
            i += 1;
        }
        proof {
            if lawful::<T>() {
                assert(out@ =~= scaled(self@, t));
                out.lemma_of();
            }
        }
        out
    }
}

impl<T: Scalar, const N: usize> MulSpecImpl<T> for Vector<T, N> {
    open spec fn obeys_mul_spec() -> bool {
        lawful::<T>()
    }

    open spec fn mul_req(self, t: T) -> bool {
        total::<T>()
    }

    open spec fn mul_spec(self, t: T) -> Self {
        Self::of(scaled(self@, t))
    }
}

impl<T: Scalar, const N: usize> Add<T> for Vector<T, N> {
    type Output = Vector<T, N>;

    fn add(self, t: T) -> (r: Self)
        ensures
            lawful::<T>() ==> r@ == shifted(self@, t),
    {
        let mut out = self;
        let mut i: usize = 0;
        while i < N
            invariant
                0 <= i <= N,
                total::<T>(),
                forall|k: int| i <= k < N ==> out.0[k] == self.0[k],
                lawful::<T>() ==> forall|k: int|
                    0 <= k < i ==> #[trigger] out.0[k] == self.0[k].add_spec(t),
            decreases N - i,
        {
            out.0[i] = self.0[i] + t;
            i += 1;
        }
        proof {
            if lawful::<T>() {
                assert(out@ =~= shifted(self@, t));
                out.lemma_of();
            }
        }
        out
    }
}

impl<T: Scalar, const N: usize> AddSpecImpl<T> for Vector<T, N> {
    open spec fn obeys_add_spec() -> bool {
        lawful::<T>()
    }

    open spec fn add_req(self, t: T) -> bool {
        total::<T>()
    }

    open spec fn add_spec(self, t: T) -> Self {
        Self::of(shifted(self@, t))
    }
}

impl<T: Scalar, const N: usize> Div<T> for Vector<T, N> {
    type Output = Vector<T, N>;

    fn div(self, t: T) -> (r: Self)
        ensures
            lawful::<T>() ==> r@ == scaled(self@, reciprocal(t)),
    {
        let inv: T = T::from(1u8) / t;
        let out = self * inv;
        proof {
            if lawful::<T>() {
                out.lemma_of();
            }
        }
        out
    }
}

impl<T: Scalar, const N: usize> DivSpecImpl<T> for Vector<T, N> {
    open spec fn obeys_div_spec() -> bool {
        lawful::<T>()
    }

    open spec fn div_req(self, t: T) -> bool {
        total::<T>()
    }

    open spec fn div_spec(self, t: T) -> Self {
        Self::of(scaled(self@, reciprocal(t)))
    }
}

impl<T: Scalar, const N: usize> Index<usize> for Vector<T, N> {
    type Output = T;

    fn index(&self, i: usize) -> (r: &T)
        ensures
            *r == self@[i as int],
    {
        &self.0[i]
    }
}

impl<T: Scalar, const N: usize> vstd::std_specs::core::IndexSpecImpl<usize> for Vector<T, N> {
    open spec fn index_req(&self, i: &usize) -> bool {
        *i < N
    }
}

/// The cross product of two rows of three.
pub open spec fn cross_spec<T: Scalar>(a: Seq<T>, b: Seq<T>) -> Seq<T> {
    seq![
        a[1].mul_spec(b[2]).sub_spec(a[2].mul_spec(b[1])),
        a[2].mul_spec(b[0]).sub_spec(a[0].mul_spec(b[2])),
        a[0].mul_spec(b[1]).sub_spec(a[1].mul_spec(b[0])),
    ]
}

/// The mirror image of `v` in the plane with normal `n`:
/// `v - 2 (v . n) n`.
pub open spec fn reflect_spec<T: Scalar>(v: Seq<T>, n: Seq<T>) -> Seq<T> {
    difference(v, scaled(n, small::<T>(2).mul_spec(inner(v, n, 3))))
}

impl<T: Scalar> Vector<T, 3> {
    /// The vector `(x, y, z)`.
    pub fn new(x: T, y: T, z: T) -> (r: Self)
        ensures
            r@ == seq![x, y, z],
    {
        let r = Vector([x, y, z]);
        assert(r@ =~= seq![x, y, z]);
        r
    }

    /// The first component.
    pub fn x(&self) -> (r: T)
        ensures
            r == self@[0],
    {
        self.0[0]
    }

    /// The second component.
    pub fn y(&self) -> (r: T)
        ensures
            r == self@[1],
    {
        self.0[1]
    }

    /// The third component.
    pub fn z(&self) -> (r: T)
        ensures
            r == self@[2],
    {
        self.0[2]
    }

    /// The red channel of a colour.
    pub fn r(&self) -> (c: T)
        ensures
            c == self@[0],
    {
        self.0[0]
    }

    /// The green channel of a colour.
    pub fn g(&self) -> (c: T)
        ensures
            c == self@[1],
    {
        self.0[1]
    }

    /// The blue channel of a colour.
    pub fn b(&self) -> (c: T)
        ensures
            c == self@[2],
    {
        self.0[2]
    }

    /// The cross product with `v`.
    pub fn cross(&self, v: &Self) -> (r: Self)
        requires
            total::<T>(),
        ensures
            lawful::<T>() ==> r@ == cross_spec(self@, v@),
    {
        let r = Vector(
            [
                self.0[1] * v.0[2] - self.0[2] * v.0[1],
                self.0[2] * v.0[0] - self.0[0] * v.0[2],
                self.0[0] * v.0[1] - self.0[1] * v.0[0],
            ],
        );
        assert(lawful::<T>() ==> r@ =~= cross_spec(self@, v@));
        r
    }

    /// The mirror image of this direction in the plane with normal `n`.
    pub fn reflect(&self, n: &Self) -> (r: Self)
        requires
            total::<T>(),
        ensures
            lawful::<T>() ==> r@ == reflect_spec(self@, n@),
    {
        let m: T = T::from(2u8) * self.dot(n);
        *self - *n * m
    }
}

impl<T: Scalar> Vector<T, 2> {
    /// The vector `(x, y)`.
    pub fn new(x: T, y: T) -> (r: Self)
        ensures
            r@ == seq![x, y],
    {
        let r = Vector([x, y]);
        assert(r@ =~= seq![x, y]);
        r
    }

    /// The first component.
    pub fn x(&self) -> (r: T)
        ensures
            r == self@[0],
    {
        self.0[0]
    }

    /// The second component.
    pub fn y(&self) -> (r: T)
        ensures
            r == self@[1],
    {
        self.0[1]
    }

    /// The first surface coordinate.
    pub fn u(&self) -> (r: T)
        ensures
            r == self@[0],
    {
        self.0[0]
    }

    /// The second surface coordinate.
    pub fn v(&self) -> (r: T)
        ensures
            r == self@[1],
    {
        self.0[1]
    }
}

/// Each component of `a` divided by `t`.
pub open spec fn divided<T: Scalar>(a: Seq<T>, t: T) -> Seq<T> {
    Seq::new(a.len(), |i: int| a[i].div_spec(t))
}

/// The part of a refracted direction across the normal: `eta (v + c n)`,
/// where `c` is the cosine of the angle to the normal, at most one.
pub open spec fn refracted_across<T: Scalar>(v: Seq<T>, n: Seq<T>, eta: T) -> Seq<T> {
    let cos_theta = lesser_spec(inner(negated(v), n, 3), small::<T>(1));
    scaled(sum(v, scaled(n, cos_theta)), eta)
}

/// What is under the root in the part of a refracted direction along the
/// normal: the magnitude of one minus the square of the part across.
pub open spec fn refracted_rest<T: Scalar>(across: Seq<T>) -> T {
    magnitude(small::<T>(1).sub_spec(inner(across, across, 3)))
}

impl<T: Scalar, const N: usize> Vector<T, N> {
    /// The length: what `sqrt` gives for the square of the length.
    pub fn length<S: Fn(T) -> T>(&self, sqrt: &S) -> (r: T)
        requires
            total::<T>(),
            forall|x: T| call_requires(*sqrt, (x,)),
        ensures
            lawful::<T>() ==> call_ensures(*sqrt, (inner(self@, self@, N as nat),), r),
    {
        sqrt(self.length_squared())
    }

    /// The vector of length one along this one: this vector times one over
    /// its length.
    pub fn unit<S: Fn(T) -> T>(&self, sqrt: &S) -> (r: Self)
        requires
            total::<T>(),
            forall|x: T| call_requires(*sqrt, (x,)),
        ensures
            lawful::<T>() ==> exists|len: T|
                {
                    &&& #[trigger] call_ensures(*sqrt, (inner(self@, self@, N as nat),), len)
                    &&& r@ == scaled(self@, reciprocal(len))
                },
    {
        let len: T = self.length(sqrt);
        *self / len
    }

    /// Divides every component by the length, in place.
    pub fn normalize<S: Fn(T) -> T>(&mut self, sqrt: &S)
        requires
            total::<T>(),
            forall|x: T| call_requires(*sqrt, (x,)),
        ensures
            lawful::<T>() ==> exists|len: T|
                {
                    &&& #[trigger] call_ensures(*sqrt, (inner(old(self)@, old(self)@, N as nat),), len)
                    &&& final(self)@ == divided(old(self)@, len)
                },
    {
        let len: T = self.length(sqrt);
        let mut i: usize = 0;
        while i < N
            invariant
                0 <= i <= N,
                total::<T>(),
                forall|k: int| i <= k < N ==> self.0[k] == old(self).0[k],
                lawful::<T>() ==> forall|k: int|
                    0 <= k < i ==> #[trigger] self.0[k] == old(self).0[k].div_spec(len),
            decreases N - i,
        {
            self.0[i] = self.0[i] / len;
            i += 1;
        }
        assert(lawful::<T>() ==> self@ =~= divided(old(self)@, len));
    }
}

impl<T: Scalar> Vector<T, 3> {
    /// A unit vector turned to the side of `normal`: `on_unit_sphere`
    /// itself where it makes a positive product with `normal`, and else its
    /// opposite.
    pub fn random_on_hemisphere(normal: &Self, on_unit_sphere: Self) -> (r: Self)
        requires
            total::<T>(),
        ensures
            lawful::<T>() ==> r@ == (if above(inner(on_unit_sphere@, normal@, 3), small::<T>(0)) {
                on_unit_sphere@
            } else {
                negated(on_unit_sphere@)
            }),
    {
        if on_unit_sphere.dot(normal) > T::from(0u8) {
            on_unit_sphere
        } else {
            on_unit_sphere.neg()
        }
    }

    /// This unit direction bent at a surface with unit normal `n`, for the
    /// ratio `etai_over_etat` of the two refractive indices: the part across
    /// the normal, plus the normal times minus the root of what is left of
    /// length one.
    pub fn refract<S: Fn(T) -> T>(&self, n: &Self, etai_over_etat: T, sqrt: &S) -> (r: Self)
        requires
            total::<T>(),
            forall|x: T| call_requires(*sqrt, (x,)),
        ensures
            lawful::<T>() ==> exists|root: T|
                {
                    &&& #[trigger] call_ensures(
                        *sqrt,
                        (refracted_rest(refracted_across(self@, n@, etai_over_etat)),),
                        root,
                    )
                    &&& r@ == sum(
                        refracted_across(self@, n@, etai_over_etat),
                        scaled(n@, root.neg_spec()),
                    )
                },
    {
        let cos_theta: T = lesser(self.neg().dot(n), T::from(1u8));
        let r_out_perp = (*self + *n * cos_theta) * etai_over_etat;
        let rest: T = abs(T::from(1u8) - r_out_perp.length_squared());
        let root: T = sqrt(rest);
        let r_out_parallel = *n * root.neg();
        let r = r_out_perp + r_out_parallel;
        proof {
            if lawful::<T>() {
                assert(r_out_perp@ == refracted_across(self@, n@, etai_over_etat));
                assert(rest == refracted_rest(r_out_perp@));
                assert(call_ensures(
                    *sqrt,
                    (refracted_rest(refracted_across(self@, n@, etai_over_etat)),),
                    root,
                ));
            }
        }
        r
    }
}

} // verus!
