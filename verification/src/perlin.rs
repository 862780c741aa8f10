//! Gradient noise after Perlin.
use vstd::prelude::*;
use vstd::std_specs::ops::{AddSpec, SubSpec, MulSpec, DivSpec};
use rand::seq::SliceRandom;
use crate::math::{Vector, gen_arr, inner, difference, scaled, smooth_step};
use crate::scalar::{Scalar, total, lawful, small, magnitude, abs, from_small};

verus! {

/// The number of gradients, and of entries in each table.
pub const POINT_COUNT: usize = 256;

/// The table `0, 1, .., 255`.
pub open spec fn in_order() -> Seq<u8> {
    Seq::new(256, |i: int| i as u8)
}

/// Shuffles a table in place. This is `shuffle` of `rand::seq::SliceRandom`
/// with the generator of `rand::rng`, which rearranges the slice by swaps of
/// two entries at a time; which rearrangement comes out is left open.
#[verifier::external_body]
fn shuffle(table: &mut [u8; 256])
    ensures
        final(table)@.to_multiset() == old(table)@.to_multiset(),
{
    table.shuffle(&mut rand::rng());
}

/// A table of `0 .. 255` in a random order.
fn shuffled() -> (table: [u8; 256])
    ensures
        table@.to_multiset() == in_order().to_multiset(),
{
    let make = |i: usize| -> (r: u8)
        requires
            i < 256,
        ensures
            r == i,
        { i as u8 };
    let mut table: [u8; 256] = gen_arr(make);
    assert(table@ =~= in_order());
    shuffle(&mut table);
    table
}

/// The entry of a table that a whole-numbered coordinate falls on: the
/// coordinate taken modulo the length of the table.
pub open spec fn lattice(i: int) -> int {
    i % 256
}

/// The entry of a table for the coordinate `i + d`.
pub fn wrap(i: i32, d: u8) -> (at: usize)
    requires
        d <= 1,
    ensures
        at == lattice(i + d),
        at < 256,
{
    let s: i64 = i as i64 + d as i64;
    let m: i64 = s % 256;
    if m < 0 {
        (m + 256) as usize
    } else {
        m as usize
    }
}

/// The weight of corner `f`, zero or one, along one axis at the smoothed
/// place `v`: `f v + (1 - f) (1 - v)`.
pub open spec fn weight<T: Scalar>(f: u8, v: T) -> T {
    small::<T>(f).mul_spec(v).add_spec(
        small::<T>((1 - f) as u8).mul_spec(small::<T>(1).sub_spec(v)),
    )
}

/// The share of corner `n` of a cell in the noise at the place `vec` inside
/// the cell: the product of its three weights at the smoothed place and of
/// its gradient with the line from the corner to the place. The corners are
/// numbered by their three coordinates read as a binary number.
pub open spec fn share<T: Scalar>(c: Seq<Vector<T, 3>>, vec: Seq<T>, n: int) -> T {
    let i = (n / 4) as u8;
    let j = ((n / 2) % 2) as u8;
    let k = (n % 2) as u8;
    weight(i, smooth_step(vec[0])).mul_spec(weight(j, smooth_step(vec[1]))).mul_spec(
        weight(k, smooth_step(vec[2])),
    ).mul_spec(inner(c[n]@, difference(vec, seq![small::<T>(i), small::<T>(j), small::<T>(k)]), 3))
}

/// The shares of the first `n` corners, added up from zero.
pub open spec fn blended<T: Scalar>(c: Seq<Vector<T, 3>>, vec: Seq<T>, n: nat) -> T
    decreases n,
{
    if n == 0 {
        small::<T>(0)
    } else {
        blended(c, vec, (n - 1) as nat).add_spec(share(c, vec, n - 1))
    }
}

/// The noise at the place `vec` inside a cell whose eight corners have the
/// gradients `c`: each gradient's product with the line from its corner,
/// blended smoothly across the cell.
pub fn trilinear_interp<T: Scalar>(c: &[Vector<T, 3>; 8], vec: &Vector<T, 3>) -> (accum: T)
    requires
        total::<T>(),
    ensures
        lawful::<T>() ==> accum == blended(c@, vec@, 8),
{
    let v = vec.smoothed();
    let mut accum: T = T::from(0u8);
    let mut n: usize = 0;
    while n < 8
        invariant
            0 <= n <= 8,
            total::<T>(),
            lawful::<T>() ==> v@ == Seq::new(3, |i: int| smooth_step(vec@[i])),
            lawful::<T>() ==> accum == blended(c@, vec@, n as nat),
        decreases 8 - n,
    {
        let i: u8 = (n / 4) as u8;
        let j: u8 = ((n / 2) % 2) as u8;
        let k: u8 = (n % 2) as u8;
        let fi: T = from_small(i);
        let fj: T = from_small(j);
        let fk: T = from_small(k);
        let corner = Vector::<T, 3>::new(fi, fj, fk);
        let line = *vec - corner;
        let wi: T = fi * v.x() + from_small::<T>(1 - i) * (T::from(1u8) - v.x());
        let wj: T = fj * v.y() + from_small::<T>(1 - j) * (T::from(1u8) - v.y());
        let wk: T = fk * v.z() + from_small::<T>(1 - k) * (T::from(1u8) - v.z());
        accum = accum + wi * wj * wk * c[n].dot(&line);
        n += 1;
    }
    accum
}

/// The gradients and the three tables of a noise.
pub struct Perlin<T> {
    randvec: [Vector<T, 3>; 256],
    perm_x: [u8; 256],
    perm_y: [u8; 256],
    perm_z: [u8; 256],
}

impl<T: Scalar> Perlin<T> {
    /// The gradients.
    pub closed spec fn gradients(&self) -> Seq<Vector<T, 3>> {
        self.randvec@
    }

    /// The three tables, for the three axes.
    pub closed spec fn tables(&self) -> (Seq<u8>, Seq<u8>, Seq<u8>) {
        (self.perm_x@, self.perm_y@, self.perm_z@)
    }

    /// The gradient at the corner with these whole-numbered coordinates:
    /// the one numbered by the three table entries for them, combined bit by
    /// bit, a bit set where an odd number of the three have it set.
    pub open spec fn gradient(&self, i: int, j: int, k: int) -> Vector<T, 3> {
        self.gradients()[(self.tables().0[lattice(i)] ^ self.tables().1[lattice(j)]
            ^ self.tables().2[lattice(k)]) as int]
    }

    /// The gradients of the eight corners of the cell at `(i, j, k)`.
    pub open spec fn corners(&self, i: int, j: int, k: int) -> Seq<Vector<T, 3>> {
        Seq::new(8, |n: int| self.gradient(i + n / 4, j + (n / 2) % 2, k + n % 2))
    }

    /// A noise with these gradients, and with three tables shuffled
    /// independently: each holds every number from 0 to 255 once.
    pub fn new(randvec: [Vector<T, 3>; 256]) -> (p: Self)
        ensures
            p.gradients() == randvec@,
            p.tables().0.to_multiset() == in_order().to_multiset(),
            p.tables().1.to_multiset() == in_order().to_multiset(),
            p.tables().2.to_multiset() == in_order().to_multiset(),
    {
        Perlin { randvec, perm_x: shuffled(), perm_y: shuffled(), perm_z: shuffled() }
    }

    /// The table for the first axis.
    pub fn perm_x(&self) -> (table: &[u8; 256])
        ensures
            table@ == self.tables().0,
    {
        &self.perm_x
    }

    /// The table for the second axis.
    pub fn perm_y(&self) -> (table: &[u8; 256])
        ensures
            table@ == self.tables().1,
    {
        &self.perm_y
    }

    /// The table for the third axis.
    pub fn perm_z(&self) -> (table: &[u8; 256])
        ensures
            table@ == self.tables().2,
    {
        &self.perm_z
    }

    /// The noise at the place `frac` inside the cell `(i, j, k)`.
    pub fn noise_at(&self, i: i32, j: i32, k: i32, frac: &Vector<T, 3>) -> (r: T)
        requires
            total::<T>(),
        ensures
            lawful::<T>() ==> r == blended(self.corners(i as int, j as int, k as int), frac@, 8),
    {
        let mut c: [Vector<T, 3>; 8] = [*frac;8];
        let mut n: usize = 0;
        while n < 8
            invariant
                0 <= n <= 8,
                forall|m: int|
                    0 <= m < n ==> #[trigger] c@[m] == self.gradient(
                        i + m / 4,
                        j + (m / 2) % 2,
                        k + m % 2,
                    ),
            decreases 8 - n,
        {
            let di: u8 = (n / 4) as u8;
            let dj: u8 = ((n / 2) % 2) as u8;
            let dk: u8 = (n % 2) as u8;
            let at: u8 = self.perm_x[wrap(i, di)] ^ self.perm_y[wrap(j, dj)] ^ self.perm_z[wrap(
                k,
                dk,
            )];
            let g: Vector<T, 3> = self.randvec[at as usize];
            c[n] = g;
            n += 1;
        }
        assert(c@ =~= self.corners(i as int, j as int, k as int));
        trilinear_interp(&c, frac)
    }

    /// The noise at the point `p`. `floor` gives the whole scalar at or
    /// below a scalar, and `cut` cuts a whole scalar down to a whole number.
    /// The point's cell is the one of the floors of its coordinates, and its
    /// place in the cell what is left of them.
    pub fn noise<F: Fn(T) -> T, C: Fn(T) -> i32>(&self, p: &Vector<T, 3>, floor: &F, cut: &C) -> (r: T)
        requires
            total::<T>(),
            forall|x: T| call_requires(*floor, (x,)),
            forall|x: T| call_requires(*cut, (x,)),
        ensures
            lawful::<T>() ==> self.noise_spec(*p, *floor, *cut, r),
    {
        let fx: T = floor(p.x());
        let fy: T = floor(p.y());
        let fz: T = floor(p.z());
        let fp = Vector::<T, 3>::new(fx, fy, fz);
        let vec = *p - fp;
        let i: i32 = cut(fx);
        let j: i32 = cut(fy);
        let k: i32 = cut(fz);
        let r = self.noise_at(i, j, k, &vec);
        proof {
            if lawful::<T>() {
                assert(floored(*floor, *cut, *p, fp, i, j, k));
            }
        }
        r
    }

    /// `r` may be the noise at `p`.
    pub open spec fn noise_spec<F: Fn(T) -> T, C: Fn(T) -> i32>(
        &self,
        p: Vector<T, 3>,
        floor: F,
        cut: C,
        r: T,
    ) -> bool {
        exists|fp: Vector<T, 3>, i: i32, j: i32, k: i32|
            {
                &&& #[trigger] floored(floor, cut, p, fp, i, j, k)
                &&& r == blended(
                    self.corners(i as int, j as int, k as int),
                    difference(p@, fp@),
                    8,
                )
            }
    }

    /// `total` may be the sum of the first `n` octaves of noise at `p`: the
    /// noise at `p`, half the noise at twice `p`, a quarter of that at four
    /// times `p`, and so on.
    pub open spec fn octaves<F: Fn(T) -> T, C: Fn(T) -> i32>(
        &self,
        p: Vector<T, 3>,
        floor: F,
        cut: C,
        n: nat,
        sum: T,
        at: Vector<T, 3>,
        weight: T,
    ) -> bool
        decreases n,
    {
        if n == 0 {
            sum == small::<T>(0) && at == p && weight == small::<T>(1)
        } else {
            exists|before: T, prior: Vector<T, 3>, w: T, here: T|
                #![trigger heard(before, prior, w, here)]
                {
                    &&& heard(before, prior, w, here)
                    &&& self.octaves(p, floor, cut, (n - 1) as nat, before, prior, w)
                    &&& self.noise_spec(prior, floor, cut, here)
                    &&& sum == before.add_spec(w.mul_spec(here))
                    &&& weight == w.mul_spec(small::<T>(1).div_spec(small::<T>(2)))
                    &&& at@ == scaled(prior@, small::<T>(2))
                }
        }
    }

    /// Turbulence at `p`: the magnitude of the sum of `depth` octaves of
    /// noise, or zero for a depth that is not positive.
    pub fn turb<F: Fn(T) -> T, C: Fn(T) -> i32>(
        &self,
        p: &Vector<T, 3>,
        depth: i32,
        floor: &F,
        cut: &C,
    ) -> (r: T)
        requires
            total::<T>(),
            forall|x: T| call_requires(*floor, (x,)),
            forall|x: T| call_requires(*cut, (x,)),
        ensures
            lawful::<T>() ==> exists|sum: T, at: Vector<T, 3>, weight: T|
                {
                    &&& #[trigger] self.octaves(*p, *floor, *cut, rounds(depth), sum, at, weight)
                    &&& r == magnitude(sum)
                },
    {
        let mut accum: T = T::from(0u8);
        let mut temp_p = *p;
        let mut weight: T = T::from(1u8);
        let mut n: i32 = 0;
        while n < depth
            invariant
                0 <= n,
                n <= depth || depth <= 0,
                depth <= 0 ==> n == 0,
                total::<T>(),
                forall|x: T| call_requires(*floor, (x,)),
                forall|x: T| call_requires(*cut, (x,)),
                lawful::<T>() ==> self.octaves(*p, *floor, *cut, n as nat, accum, temp_p, weight),
            decreases depth - n,
        {
            let ghost before = accum;
            let ghost prior = temp_p;
            let ghost w = weight;
            let here: T = self.noise(&temp_p, floor, cut);
            accum = accum + weight * here;
            weight = weight * (T::from(1u8) / T::from(2u8));
            temp_p = temp_p * T::from(2u8);
            proof {
                if lawful::<T>() {
                    let m: nat = (n + 1) as nat;
                    assert(heard(before, prior, w, here));
                    assert(self.octaves(*p, *floor, *cut, (m - 1) as nat, before, prior, w));
                    assert(self.octaves(*p, *floor, *cut, m, accum, temp_p, weight));
                }
            }
            n += 1;
        }
        proof {
            if lawful::<T>() {
                assert(n as nat == rounds(depth));
                assert(self.octaves(*p, *floor, *cut, rounds(depth), accum, temp_p, weight));
            }
        }
        abs(accum)
    }
}

/// The number of octaves for a depth: the depth, or none for a depth that is
/// not positive.
pub open spec fn rounds(depth: i32) -> nat {
    if depth > 0 {
        depth as nat
    } else {
        0
    }
}

/// `fp` holds what `floor` gave for the three coordinates of `p`, and
/// `i`, `j`, `k` what `cut` gave for those.
pub open spec fn floored<T: Scalar, F: Fn(T) -> T, C: Fn(T) -> i32>(
    floor: F,
    cut: C,
    p: Vector<T, 3>,
    fp: Vector<T, 3>,
    i: i32,
    j: i32,
    k: i32,
) -> bool {
    &&& call_ensures(floor, (p@[0],), fp@[0])
    &&& call_ensures(floor, (p@[1],), fp@[1])
    &&& call_ensures(floor, (p@[2],), fp@[2])
    &&& call_ensures(cut, (fp@[0],), i)
    &&& call_ensures(cut, (fp@[1],), j)
    &&& call_ensures(cut, (fp@[2],), k)
}

/// The sum before an octave, the point and the weight of the octave, and
/// its noise, taken together. It holds of any four: it only names them.
pub open spec fn heard<T>(before: T, prior: Vector<T, 3>, w: T, here: T) -> bool {
    true
}

} // verus!
