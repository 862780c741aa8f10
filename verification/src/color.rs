//! Colours, and their bytes in a picture.
use vstd::prelude::*;
use vstd::std_specs::ops::{MulSpec, DivSpec};
use crate::interval::Interval;
use crate::math::Vector;
use crate::exact::{steady, times};
use crate::scalar::{
    Scalar, total, lawful, small, count, above, below, at_most, linear, lemma_linear,
};
use crate::util::linear_to_gamma;

verus! {

/// The brightest a channel may be before it is made a byte: 0.999.
pub open spec fn brightest<T: Scalar>() -> T {
    count::<T>(999).div_spec(count::<T>(1000))
}

/// What is made a byte of a channel whose root is `g`: 256 times `g`
/// brought into the range from zero to the brightest.
pub open spec fn scaled_channel<T: Scalar>(g: T) -> T {
    count::<T>(256).mul_spec(
        (Interval::<T> { min: small::<T>(0), max: brightest::<T>() }).clamp_spec(g),
    )
}

/// `b` is the byte of the linear channel `c`: what `byte` gave for the
/// scaled root of the channel, the root being what `sqrt` gave, or zero for
/// a channel not above zero.
pub open spec fn encoded<T: Scalar, S: Fn(T) -> T, B: Fn(T) -> u8>(
    sqrt: S,
    byte: B,
    c: T,
    b: u8,
) -> bool {
    exists|g: T|
        {
            &&& if above(c, small::<T>(0)) {
                call_ensures(sqrt, (c,), g)
            } else {
                g == small::<T>(0)
            }
            &&& #[trigger] call_ensures(byte, (scaled_channel(g),), b)
        }
}

/// The byte of one channel.
pub fn channel_byte<T: Scalar, S: Fn(T) -> T, B: Fn(T) -> u8>(c: T, sqrt: &S, byte: &B) -> (b: u8)
    requires
        total::<T>(),
        forall|x: T| call_requires(*sqrt, (x,)),
        forall|x: T| call_requires(*byte, (x,)),
    ensures
        lawful::<T>() ==> encoded(*sqrt, *byte, c, b),
{
    let g: T = linear_to_gamma(c, sqrt);
    let intensity = Interval::new(T::from(0u8), T::from(999u32) / T::from(1000u32));
    let b: u8 = byte(T::from(256u32) * intensity.clamp(g));
    proof {
        if lawful::<T>() {
            assert(call_ensures(*byte, (scaled_channel(g),), b));
        }
    }
    b
}

impl<T: Scalar> Vector<T, 3> {
    /// The three bytes of this colour: each channel is made ready for the
    /// eye by its root, brought into the range from zero to 0.999, and
    /// scaled by 256. `sqrt` gives the root and `byte` cuts a scalar down to
    /// a byte.
    pub fn to_pixel<S: Fn(T) -> T, B: Fn(T) -> u8>(&self, sqrt: &S, byte: &B) -> (p: (u8, u8, u8))
        requires
            total::<T>(),
            forall|x: T| call_requires(*sqrt, (x,)),
            forall|x: T| call_requires(*byte, (x,)),
        ensures
            lawful::<T>() ==> encoded(*sqrt, *byte, self@[0], p.0),
            lawful::<T>() ==> encoded(*sqrt, *byte, self@[1], p.1),
            lawful::<T>() ==> encoded(*sqrt, *byte, self@[2], p.2),
    {
        (
            channel_byte(self.r(), sqrt, byte),
            channel_byte(self.g(), sqrt, byte),
            channel_byte(self.b(), sqrt, byte),
        )
    }
}

/// A greater scalar has a root that is at least as great, and the root of
/// a scalar above zero is at least zero.
pub open spec fn rising_root<T: Scalar, S: Fn(T) -> T>(sqrt: S) -> bool {
    &&& forall|x: T, y: T, p: T, q: T|
        #![trigger call_ensures(sqrt, (x,), p), call_ensures(sqrt, (y,), q)]
        call_ensures(sqrt, (x,), p) && call_ensures(sqrt, (y,), q) && at_most(x, y) ==> at_most(
            p,
            q,
        )
    &&& forall|x: T, p: T| #[trigger]
        call_ensures(sqrt, (x,), p) && above(x, small::<T>(0)) ==> at_most(small::<T>(0), p)
}

/// A greater scalar is cut down to a byte that is at least as great.
pub open spec fn rising_cut<T: Scalar, B: Fn(T) -> u8>(byte: B) -> bool {
    forall|x: T, y: T, p: u8, q: u8|
        #![trigger call_ensures(byte, (x,), p), call_ensures(byte, (y,), q)]
        call_ensures(byte, (x,), p) && call_ensures(byte, (y,), q) && at_most(x, y) ==> p <= q
}

/// Bringing a scalar into a range keeps the order: of two scalars, the
/// greater is brought to what is at least as great.
pub proof fn lemma_clamp_rises<T: Scalar>(i: Interval<T>, x: T, y: T)
    requires
        linear::<T>(),
        at_most(i.min, i.max),
        at_most(x, y),
    ensures
        at_most(i.clamp_spec(x), i.clamp_spec(y)),
{
    lemma_linear(i.min, i.max);
    lemma_linear(i.max, i.min);
    lemma_linear(x, i.min);
    lemma_linear(i.min, x);
    lemma_linear(y, i.min);
    lemma_linear(i.min, y);
    lemma_linear(x, i.max);
    lemma_linear(i.max, x);
    lemma_linear(y, i.max);
    lemma_linear(i.max, y);
    assert(below(x, i.min) <==> above(i.min, x));
    assert(below(y, i.min) <==> above(i.min, y));
    assert(below(i.max, x) <==> above(x, i.max));
    assert(below(i.max, y) <==> above(y, i.max));
    if below(x, i.min) {
        if !below(y, i.min) && !above(y, i.max) {
            assert(at_most(i.min, y));
        }
    } else if above(x, i.max) {
        // `y` is at least `x`, which is above the upper end.
        assert(below(i.max, x));
        assert(below(i.max, y));
        if below(y, i.min) {
            assert(at_most(i.min, i.max) && below(i.max, y));
            assert(below(i.min, y));
        }
    } else {
        if below(y, i.min) {
            // `x` is at most `y`, which is below the lower end.
            assert(below(x, i.min));
        } else if above(y, i.max) {
            assert(at_most(x, i.max));
        }
    }
}

/// The byte of a channel rises with the channel: of two linear channels,
/// the greater has a byte that is at least as great, where roots and the
/// cut to a byte rise with what they are taken of.
pub proof fn lemma_encoding_rises<T: Scalar, S: Fn(T) -> T, B: Fn(T) -> u8>(
    sqrt: S,
    byte: B,
    c1: T,
    c2: T,
    b1: u8,
    b2: u8,
)
    requires
        linear::<T>(),
        steady::<T>(),
        rising_root(sqrt),
        rising_cut(byte),
        at_most(small::<T>(0), count::<T>(256)),
        at_most(small::<T>(0), brightest::<T>()),
        at_most(c1, c2),
        encoded(sqrt, byte, c1, b1),
        encoded(sqrt, byte, c2, b2),
    ensures
        b1 <= b2,
{
    let none = small::<T>(0);
    let g1 = choose|g: T|
        {
            &&& if above(c1, none) {
                call_ensures(sqrt, (c1,), g)
            } else {
                g == none
            }
            &&& #[trigger] call_ensures(byte, (scaled_channel(g),), b1)
        };
    let g2 = choose|g: T|
        {
            &&& if above(c2, none) {
                call_ensures(sqrt, (c2,), g)
            } else {
                g == none
            }
            &&& #[trigger] call_ensures(byte, (scaled_channel(g),), b2)
        };
    lemma_linear(none, none);
    assert(below(none, c1) <==> above(c1, none));
    assert(below(none, c2) <==> above(c2, none));
    if above(c1, none) {
        assert(below(none, c1) && at_most(c1, c2));
        assert(below(none, c2));
    }
    assert(at_most(g1, g2));
    let range = Interval::<T> { min: none, max: brightest::<T>() };
    lemma_clamp_rises(range, g1, g2);
    let k1 = range.clamp_spec(g1);
    let k2 = range.clamp_spec(g2);
    assert(at_most(times(count::<T>(256), k1), times(count::<T>(256), k2))) by {
        reveal(steady);
    }
    assert(scaled_channel(g1) == times(count::<T>(256), k1));
    assert(scaled_channel(g2) == times(count::<T>(256), k2));
}

} // verus!
