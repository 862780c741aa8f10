//! A raster of colours, addressed as an image texture addresses it.
use vstd::prelude::*;
use vstd::std_specs::ops::{SubSpec, MulSpec};
use crate::interval::Interval;
use crate::math::Vector;
use crate::scalar::{Scalar, total, lawful, small, count};

verus! {

/// Why a raster was not accepted.
#[derive(Debug, Clone, Copy, PartialEq, Eq)]
pub enum ImageError {
    /// The width or the height is zero.
    Empty,
    /// The number of texels is not width times height.
    Length,
}

/// A decoded picture: `height` rows of `width` colours, top row first.
pub struct Image<T: Scalar> {
    width: u32,
    height: u32,
    texels: Vec<Vector<T, 3>>,
}

impl<T: Scalar> Image<T> {
    /// Every row is complete and there is at least one texel.
    #[verifier::type_invariant]
    spec fn inv(&self) -> bool {
        &&& self.width >= 1
        &&& self.height >= 1
        &&& self.texels@.len() == self.width * self.height
    }

    /// The number of columns.
    pub closed spec fn spec_width(&self) -> nat {
        self.width as nat
    }

    /// The number of rows.
    pub closed spec fn spec_height(&self) -> nat {
        self.height as nat
    }

    /// The colours, row after row.
    pub closed spec fn spec_texels(&self) -> Seq<Vector<T, 3>> {
        self.texels@
    }

    /// Takes a decoded raster into an image. Succeeds exactly when both
    /// dimensions are positive and `texels` holds one colour per position.
    pub fn load(width: u32, height: u32, texels: Vec<Vector<T, 3>>) -> (r: Result<Self, ImageError>)
        ensures
            (width == 0 || height == 0) ==> r == Err::<Self, ImageError>(ImageError::Empty),
            (width > 0 && height > 0 && texels@.len() != width * height) ==> r == Err::<
                Self,
                ImageError,
            >(ImageError::Length),
            (width > 0 && height > 0 && texels@.len() == width * height) ==> (r matches Ok(img)
                && img.spec_width() == width && img.spec_height() == height && img.spec_texels()
                == texels@),
    {
        if width == 0 || height == 0 {
            return Err(ImageError::Empty);
        }
        assert(width * height <= 0xffff_ffff * 0xffff_ffff) by (nonlinear_arith)
            requires
                0 <= width <= 0xffff_ffff,
                0 <= height <= 0xffff_ffff,
        ;
        let want: u64 = (width as u64) * (height as u64);
        if texels.len() as u64 != want {
            return Err(ImageError::Length);
        }
        Ok(Image { width, height, texels })
    }

    /// The number of columns.
    pub fn width(&self) -> (r: u32)
        ensures
            r == self.spec_width(),
            r >= 1,
    {
        proof {
            use_type_invariant(self);
        }
        self.width
    }

    /// The number of rows.
    pub fn height(&self) -> (r: u32)
        ensures
            r == self.spec_height(),
            r >= 1,
    {
        proof {
            use_type_invariant(self);
        }
        self.height
    }

    /// The colour at column `i` of row `j`, each index brought into the image
    /// first.
    pub open spec fn texel_spec(&self, i: u32, j: u32) -> Vector<T, 3> {
        self.spec_texels()[nearest(j as int, self.spec_height() as int) * self.spec_width()
            + nearest(i as int, self.spec_width() as int)]
    }

    /// The place in the picture that the surface coordinates `(u, v)` name,
    /// as a pair of scalars to be cut down to whole numbers: `u` brought
    /// into the unit range times the width, and one minus `v` brought into
    /// the unit range times the height.
    pub open spec fn place_spec(&self, u: T, v: T) -> (T, T) {
        let unit = Interval::<T> { min: small::<T>(0), max: small::<T>(1) };
        (
            unit.clamp_spec(u).mul_spec(count::<T>(self.spec_width() as u32)),
            small::<T>(1).sub_spec(unit.clamp_spec(v)).mul_spec(count::<T>(self.spec_height() as u32)),
        )
    }

    /// The colour of the picture at the surface coordinates `uv`: that of
    /// the texel whose column and row `cut` makes of the place that the
    /// coordinates name. `cut` cuts a scalar down to a whole number.
    pub fn sample_tex<C: Fn(T) -> u32>(&self, uv: &Vector<T, 2>, cut: &C) -> (c: Vector<T, 3>)
        requires
            total::<T>(),
            forall|x: T| call_requires(*cut, (x,)),
        ensures
            lawful::<T>() ==> exists|i: u32, j: u32|
                #![trigger self.texel_spec(i, j)]
                {
                    &&& call_ensures(*cut, (self.place_spec(uv@[0], uv@[1]).0,), i)
                    &&& call_ensures(*cut, (self.place_spec(uv@[0], uv@[1]).1,), j)
                    &&& c == self.texel_spec(i, j)
                },
    {
        let unit = Interval::new(T::from(0u8), T::from(1u8));
        let u: T = unit.clamp(uv.u());
        let v: T = T::from(1u8) - unit.clamp(uv.v());
        let i: u32 = cut(u * T::from(self.width));
        let j: u32 = cut(v * T::from(self.height));
        let c = self.texel(i, j);
        proof {
            if lawful::<T>() {
                assert(call_ensures(*cut, (self.place_spec(uv@[0], uv@[1]).0,), i));
                assert(call_ensures(*cut, (self.place_spec(uv@[0], uv@[1]).1,), j));
                assert(c == self.texel_spec(i, j));
            }
        }
        c
    }

    /// The colour at column `i` of row `j`, each index brought into the image
    /// first: one past the last column reads the last column.
    pub fn texel(&self, i: u32, j: u32) -> (r: Vector<T, 3>)
        ensures
            r == self.texel_spec(i, j),
    {
        proof {
            use_type_invariant(self);
        }
        let ci: u32 = if i > self.width - 1 {
            self.width - 1
        } else {
            i
        };
        let cj: u32 = if j > self.height - 1 {
            self.height - 1
        } else {
            j
        };
        assert(0 <= cj * self.width && cj * self.width + ci < self.width * self.height)
            by (nonlinear_arith)
            requires
                0 <= ci < self.width,
                0 <= cj < self.height,
        ;
        let count: usize = self.texels.len();
        assert(cj * self.width + ci < count);
        assert((cj as usize) * (self.width as usize) == cj * self.width);
        let at: usize = (cj as usize) * (self.width as usize) + (ci as usize);
        self.texels[at]
    }
}

/// An index brought into `0 .. n`: itself, or `n - 1` when it lies beyond.
pub open spec fn nearest(i: int, n: int) -> int {
    if i > n - 1 {
        n - 1
    } else {
        i
    }
}

} // verus!
