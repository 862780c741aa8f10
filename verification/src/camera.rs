//! The camera: where it stands, the grid of pixels it looks through, and the
//! lens it may have.
use vstd::prelude::*;
use vstd::std_specs::ops::{AddSpec, SubSpec, MulSpec, DivSpec};
use core::ops::Neg;
use crate::math::{Vector, sum, difference, scaled, reciprocal, negated, cross_spec};
use crate::ray::Ray;
use crate::scalar::{Scalar, total, lawful, small, count, at_most};

verus! {

/// A camera. It keeps what a renderer asks of it, and what it has worked
/// out of how it was set up.
pub struct Camera<T> {
    pub image_width: u32,
    pub image_height: u32,
    pub samples: u32,
    pub samples_scale: T,
    pub max_depth: u32,
    pub defocus_angle: T,
    center: Vector<T, 3>,
    pixel_delta_u: Vector<T, 3>,
    pixel_delta_v: Vector<T, 3>,
    pixel00_loc: Vector<T, 3>,
    u: Vector<T, 3>,
    v: Vector<T, 3>,
    w: Vector<T, 3>,
    defocus_disk_u: Vector<T, 3>,
    defocus_disk_v: Vector<T, 3>,
}

/// What a camera has worked out: its three axes, the steps from pixel to
/// pixel across and down, the centre of the first pixel, and the two radii
/// of the disk from which a lens sends rays.
pub struct Optics<T> {
    pub center: Seq<T>,
    pub u: Seq<T>,
    pub v: Seq<T>,
    pub w: Seq<T>,
    pub pixel_delta_u: Seq<T>,
    pub pixel_delta_v: Seq<T>,
    pub pixel00_loc: Seq<T>,
    pub defocus_disk_u: Seq<T>,
    pub defocus_disk_v: Seq<T>,
}

/// One half.
pub open spec fn one_half<T: Scalar>() -> T {
    small::<T>(1).div_spec(small::<T>(2))
}

/// What a camera at `lookfrom` works out, given its unit axes `w` (back
/// along the view) and `u` (to the right), the tangent `h` of half its
/// vertical field of view, and the tangent `defocus_tan` of half the angle
/// of its lens.
///
/// The viewport stands at the focus distance, `2 h` times that distance
/// high and as wide as the picture's proportions ask. Pixels are spaced
/// evenly over it, and the first pixel's centre is half a step in from its
/// upper left corner.
pub open spec fn optics<T: Scalar>(
    image_width: u32,
    image_height: u32,
    h: T,
    lookfrom: Seq<T>,
    focus_dist: T,
    defocus_tan: T,
    w: Seq<T>,
    u: Seq<T>,
) -> Optics<T> {
    let aspect_ratio = count::<T>(image_width).div_spec(count::<T>(image_height));
    let viewport_height = small::<T>(2).mul_spec(h).mul_spec(focus_dist);
    let viewport_width = viewport_height.mul_spec(aspect_ratio);
    let v = cross_spec(w, u);
    let viewport_u = scaled(u, viewport_width);
    let viewport_v = scaled(negated(v), viewport_height);
    let pixel_delta_u = scaled(viewport_u, reciprocal(count::<T>(image_width)));
    let pixel_delta_v = scaled(viewport_v, reciprocal(count::<T>(image_height)));
    let viewport_upper_left = difference(
        difference(
            difference(lookfrom, scaled(w, focus_dist)),
            scaled(viewport_u, reciprocal(small::<T>(2))),
        ),
        scaled(viewport_v, reciprocal(small::<T>(2))),
    );
    let defocus_radius = focus_dist.mul_spec(defocus_tan);
    Optics {
        center: lookfrom,
        u,
        v,
        w,
        pixel_delta_u,
        pixel_delta_v,
        pixel00_loc: sum(viewport_upper_left, scaled(sum(pixel_delta_u, pixel_delta_v), one_half::<T>())),
        defocus_disk_u: scaled(u, defocus_radius),
        defocus_disk_v: scaled(v, defocus_radius),
    }
}

/// The point of the lens picked by the point `(x, y)` of the unit disk.
pub open spec fn lens_point<T: Scalar>(o: Optics<T>, x: T, y: T) -> Seq<T> {
    sum(sum(o.center, scaled(o.defocus_disk_u, x)), scaled(o.defocus_disk_v, y))
}

/// The point of the viewport that a ray for pixel `(i, j)` goes through,
/// moved off the pixel's centre by `dx` of a step across and `dy` of a step
/// down.
pub open spec fn pixel_sample<T: Scalar>(o: Optics<T>, i: u32, j: u32, dx: T, dy: T) -> Seq<T> {
    sum(
        sum(o.pixel00_loc, scaled(o.pixel_delta_u, count::<T>(i).add_spec(dx))),
        scaled(o.pixel_delta_v, count::<T>(j).add_spec(dy)),
    )
}

impl<T: Scalar> Camera<T> {
    /// What the camera has worked out.
    pub closed spec fn worked_out(&self) -> Optics<T> {
        Optics {
            center: self.center@,
            u: self.u@,
            v: self.v@,
            w: self.w@,
            pixel_delta_u: self.pixel_delta_u@,
            pixel_delta_v: self.pixel_delta_v@,
            pixel00_loc: self.pixel00_loc@,
            defocus_disk_u: self.defocus_disk_u@,
            defocus_disk_v: self.defocus_disk_v@,
        }
    }

    /// The width and height of the picture in pixels, the number of samples
    /// for a pixel with its reciprocal, the greatest number of bounces, and
    /// the angle of the lens.
    pub closed spec fn settings(&self) -> (u32, u32, u32, T, u32, T) {
        (
            self.image_width,
            self.image_height,
            self.samples,
            self.samples_scale,
            self.max_depth,
            self.defocus_angle,
        )
    }

    /// A camera at `lookfrom` that looks at `lookat`, with `vup` for its
    /// upward direction. `h` is the tangent of half the vertical field of
    /// view, `defocus_tan` that of half the angle of the lens, and `unit`
    /// gives the vector of length one along a vector.
    pub fn new<F: Fn(&Vector<T, 3>) -> Vector<T, 3>>(
        image_width: u32,
        image_height: u32,
        h: T,
        lookfrom: Vector<T, 3>,
        lookat: Vector<T, 3>,
        vup: Vector<T, 3>,
        defocus_angle: T,
        defocus_tan: T,
        focus_dist: T,
        samples: u32,
        max_depth: u32,
        unit: F,
    ) -> (camera: Self)
        requires
            total::<T>(),
            forall|n: &Vector<T, 3>| call_requires(unit, (n,)),
        ensures
            lawful::<T>() ==> camera.settings() == (
                image_width,
                image_height,
                samples,
                reciprocal(count::<T>(samples)),
                max_depth,
                defocus_angle,
            ),
            lawful::<T>() ==> exists|back: Vector<T, 3>, w: Vector<T, 3>, right: Vector<T, 3>, u: Vector<T, 3>|
                #![trigger call_ensures(unit, (&back,), w), call_ensures(unit, (&right,), u)]
                {
                    &&& back@ == difference(lookfrom@, lookat@)
                    &&& call_ensures(unit, (&back,), w)
                    &&& right@ == cross_spec(vup@, w@)
                    &&& call_ensures(unit, (&right,), u)
                    &&& camera.worked_out() == optics(
                        image_width,
                        image_height,
                        h,
                        lookfrom@,
                        focus_dist,
                        defocus_tan,
                        w@,
                        u@,
                    )
                },
    {
        let aspect_ratio: T = T::from(image_width) / T::from(image_height);
        let center = lookfrom;
        let viewport_height: T = T::from(2u8) * h * focus_dist;
        let viewport_width: T = viewport_height * aspect_ratio;
        let back = lookfrom - lookat;
        let w = unit(&back);
        let right = vup.cross(&w);
        let u = unit(&right);
        let v = w.cross(&u);
        let viewport_u = u * viewport_width;
        let viewport_v = v.neg() * viewport_height;
        let pixel_delta_u = viewport_u / T::from(image_width);
        let pixel_delta_v = viewport_v / T::from(image_height);
        let viewport_upper_left = center - (w * focus_dist) - viewport_u / T::from(2u8) - viewport_v
            / T::from(2u8);
        let pixel00_loc = viewport_upper_left + (pixel_delta_u + pixel_delta_v) * (T::from(1u8)
            / T::from(2u8));
        let defocus_radius: T = focus_dist * defocus_tan;
        let defocus_disk_u = u * defocus_radius;
        let defocus_disk_v = v * defocus_radius;
        let camera = Camera {
            image_width,
            image_height,
            samples,
            samples_scale: T::from(1u8) / T::from(samples),
            max_depth,
            defocus_angle,
            center,
            pixel_delta_u,
            pixel_delta_v,
            pixel00_loc,
            u,
            v,
            w,
            defocus_disk_u,
            defocus_disk_v,
        };
        proof {
            if lawful::<T>() {
                assert(call_ensures(unit, (&back,), w));
                assert(call_ensures(unit, (&right,), u));
                assert(camera.worked_out() == optics(
                    image_width,
                    image_height,
                    h,
                    lookfrom@,
                    focus_dist,
                    defocus_tan,
                    w@,
                    u@,
                ));
            }
        }
        camera
    }

    /// The width of the picture in pixels.
    pub fn width(&self) -> (n: u32)
        ensures
            n == self.settings().0,
    {
        self.image_width
    }

    /// The height of the picture in pixels.
    pub fn height(&self) -> (n: u32)
        ensures
            n == self.settings().1,
    {
        self.image_height
    }

    /// The number of samples for a pixel.
    pub fn sample_count(&self) -> (n: u32)
        ensures
            n == self.settings().2,
    {
        self.samples
    }

    /// One over the number of samples for a pixel.
    pub fn sample_scale(&self) -> (s: T)
        ensures
            s == self.settings().3,
    {
        self.samples_scale
    }

    /// The greatest number of surfaces a ray is followed through.
    pub fn depth(&self) -> (n: u32)
        ensures
            n == self.settings().4,
    {
        self.max_depth
    }

    /// The ray for pixel `(i, j)`. It goes through the pixel moved off its
    /// centre by `dx` of a step across and `dy` of a step down, at shutter
    /// time `time`. It starts at the camera's centre where the angle of the
    /// lens is not above zero, and else at the point of the lens that
    /// `disk`, a point of the unit disk, picks.
    pub fn get_ray(&self, i: u32, j: u32, dx: T, dy: T, disk: (T, T), time: T) -> (r: Ray<T>)
        requires
            total::<T>(),
        ensures
            r.time == time,
            lawful::<T>() ==> r.origin@ == (if at_most(self.settings().5, small::<T>(0)) {
                self.worked_out().center
            } else {
                lens_point(self.worked_out(), disk.0, disk.1)
            }),
            lawful::<T>() ==> r.direction@ == difference(
                pixel_sample(self.worked_out(), i, j, dx, dy),
                r.origin@,
            ),
    {
        let pixel_sample = self.pixel00_loc + (self.pixel_delta_u * (T::from(i) + dx)) + (
        self.pixel_delta_v * (T::from(j) + dy));
        let ray_origin = if self.defocus_angle <= T::from(0u8) {
            self.center
        } else {
            self.defocus_disk_sample(disk)
        };
        let ray_direction = pixel_sample - ray_origin;
        Ray::new(ray_origin, ray_direction, time)
    }

    /// The point of the lens that `p`, a point of the unit disk, picks.
    pub fn defocus_disk_sample(&self, p: (T, T)) -> (o: Vector<T, 3>)
        requires
            total::<T>(),
        ensures
            lawful::<T>() ==> o@ == lens_point(self.worked_out(), p.0, p.1),
    {
        self.center + (self.defocus_disk_u * p.0) + (self.defocus_disk_v * p.1)
    }
}

} // verus!
