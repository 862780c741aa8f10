//! A scene and the light that comes along a ray through it.
use vstd::prelude::*;
use vstd::std_specs::ops::{AddSpec, MulSpec, DivSpec};
use crate::background::Background;
use crate::camera::Camera;
use crate::group::answer;
use crate::interval::Interval;
use crate::material::{Material, Scatter};
use crate::math::{Vector, sum, product, scaled};
use crate::object::{Hit, Object};
use crate::ray::Ray;
use crate::scalar::{Scalar, total, lawful, small, count, infinity_spec};

verus! {

/// A camera, the shapes it looks at, and what lies behind them.
pub struct Scene<T: Scalar, W: Object<T>, B: Background<T>> {
    pub camera: Camera<T>,
    pub world: W,
    pub background: B,
}

/// No light at all.
pub open spec fn black<T: Scalar>() -> Seq<T> {
    seq![small::<T>(0), small::<T>(0), small::<T>(0)]
}

/// The least parameter at which a ray may meet a surface: a thousandth, so
/// that a ray does not meet the surface it starts from.
pub open spec fn shadow_spec<T: Scalar>() -> T {
    small::<T>(1).div_spec(count::<T>(1000))
}

/// `c` is what the sky gives for a ray that meets nothing: the colour that
/// `background` gave for the direction that `unit` made of the ray's.
pub open spec fn sky<T: Scalar, B: Background<T>, F: Fn(&Vector<T, 3>) -> Vector<T, 3>>(
    background: B,
    unit: F,
    r: Ray<T>,
    c: Vector<T, 3>,
) -> bool {
    exists|dir: Vector<T, 3>|
        {
            &&& #[trigger] call_ensures(unit, (&r.direction,), dir)
            &&& call_ensures(B::sample_bg, (&background, &dir), c)
        }
}

/// `e` is what the material of `hit` gave off, and `s` what it sent on.
pub open spec fn glows<T: Scalar, M: Material<T>>(
    r: Ray<T>,
    hit: Hit<T, M>,
    e: Vector<T, 3>,
    s: Option<Scatter<T>>,
) -> bool {
    call_ensures(M::emitted, (&hit.mat, &r, &hit), e) && call_ensures(
        M::scatter,
        (&hit.mat, &r, &hit),
        s,
    )
}

/// `c` may be the light that comes along `r`, followed through at most
/// `depth` surfaces.
///
/// Followed no further, a ray brings no light. A ray that meets nothing
/// past the least parameter brings what the sky gives. One that meets a
/// surface brings what the surface gives off, and, where the surface sends
/// light on, what comes along the ray sent on, followed one surface less,
/// each colour kept as the surface says.
pub open spec fn shade<
    T: Scalar,
    W: Object<T>,
    B: Background<T>,
    F: Fn(&Vector<T, 3>) -> Vector<T, 3>,
>(world: W, background: B, unit: F, r: Ray<T>, depth: nat, c: Vector<T, 3>) -> bool where
    W::Mat: Material<T>,

    decreases depth,
{
    if depth == 0 {
        c@ == black::<T>()
    } else {
        exists|
            found: Option<Hit<T, W::Mat>>,
            e: Vector<T, 3>,
            s: Option<Scatter<T>>,
            deeper: Vector<T, 3>,
        |
            #![trigger answer(world, r, shadow_spec::<T>(), infinity_spec::<T>(), found), traced(e, s, deeper)]
            {
                &&& answer(world, r, shadow_spec::<T>(), infinity_spec::<T>(), found)
                &&& traced(e, s, deeper)
                &&& match found {
                    None => sky(background, unit, r, c),
                    Some(hit) => {
                        &&& glows(r, hit, e, s)
                        &&& match s {
                            None => c == e,
                            Some(on) => {
                                &&& shade(world, background, unit, on.ray, (depth - 1) as nat, deeper)
                                &&& c@ == sum(e@, product(on.att@, deeper@))
                            },
                        }
                    },
                }
            }
    }
}

/// What a surface gave off and sent on, and what came along the ray sent
/// on, taken together. It holds of any three: it only names them.
pub open spec fn traced<T>(e: Vector<T, 3>, s: Option<Scatter<T>>, deeper: Vector<T, 3>) -> bool {
    true
}

/// `total` may be the sum of what came along the first `n` rays that
/// `sample` gave, each followed through at most `depth` surfaces.
pub open spec fn gathered<
    T: Scalar,
    W: Object<T>,
    B: Background<T>,
    F: Fn(&Vector<T, 3>) -> Vector<T, 3>,
    G: Fn() -> Ray<T>,
>(world: W, background: B, unit: F, sample: G, depth: nat, n: nat, total: Vector<T, 3>) -> bool where
    W::Mat: Material<T>,

    decreases n,
{
    if n == 0 {
        total@ == black::<T>()
    } else {
        exists|before: Vector<T, 3>, r: Ray<T>, c: Vector<T, 3>|
            #![trigger taken(before, r, c)]
            {
                &&& taken(before, r, c)
                &&& gathered(world, background, unit, sample, depth, (n - 1) as nat, before)
                &&& call_ensures(sample, (), r)
                &&& shade(world, background, unit, r, depth, c)
                &&& total@ == sum(before@, c@)
            }
    }
}

/// No material of the world sends light on, and none gives any off.
pub open spec fn dark<T: Scalar, W: Object<T>>() -> bool where W::Mat: Material<T> {
    &&& forall|r: Ray<T>, hit: Hit<T, W::Mat>, s: Option<Scatter<T>>| #[trigger]
        call_ensures(<W::Mat as Material<T>>::scatter, (&hit.mat, &r, &hit), s) ==> s is None
    &&& forall|r: Ray<T>, hit: Hit<T, W::Mat>, e: Vector<T, 3>| #[trigger]
        call_ensures(<W::Mat as Material<T>>::emitted, (&hit.mat, &r, &hit), e) ==> e@ == black::<T>()
}

/// The world has nothing in the way of `r`.
pub open spec fn clear<T: Scalar, W: Object<T>>(world: W, r: Ray<T>) -> bool {
    forall|found: Option<Hit<T, W::Mat>>| #[trigger]
        answer(world, r, shadow_spec::<T>(), infinity_spec::<T>(), found) ==> found is None
}

/// Where no material sends light on or gives any off, a ray followed
/// through at least one surface brings what the sky gives, or no light at
/// all where a surface is in its way: the picture is the picture of the
/// sky, blacked out where the world covers it. How far rays are followed
/// does not matter.
pub proof fn lemma_dark_world_shows_the_sky<
    T: Scalar,
    W: Object<T>,
    B: Background<T>,
    F: Fn(&Vector<T, 3>) -> Vector<T, 3>,
>(world: W, background: B, unit: F, r: Ray<T>, depth: nat, c: Vector<T, 3>) where
    W::Mat: Material<T>,

    requires
        depth >= 1,
        dark::<T, W>(),
        shade(world, background, unit, r, depth, c),
    ensures
        sky(background, unit, r, c) || c@ == black::<T>(),
        clear(world, r) ==> sky(background, unit, r, c),
        forall|other: nat| other >= 1 ==> shade(world, background, unit, r, other, c),
{
    let (found, e, s, deeper) = choose|
        found: Option<Hit<T, W::Mat>>,
        e: Vector<T, 3>,
        s: Option<Scatter<T>>,
        deeper: Vector<T, 3>,
    |
        #![trigger answer(world, r, shadow_spec::<T>(), infinity_spec::<T>(), found), traced(e, s, deeper)]
        {
            &&& answer(world, r, shadow_spec::<T>(), infinity_spec::<T>(), found)
            &&& traced(e, s, deeper)
            &&& match found {
                None => sky(background, unit, r, c),
                Some(hit) => {
                    &&& glows(r, hit, e, s)
                    &&& match s {
                        None => c == e,
                        Some(on) => {
                            &&& shade(world, background, unit, on.ray, (depth - 1) as nat, deeper)
                            &&& c@ == sum(e@, product(on.att@, deeper@))
                        },
                    }
                },
            }
        };
    assert forall|other: nat| other >= 1 implies shade(world, background, unit, r, other, c) by {
        assert(answer(world, r, shadow_spec::<T>(), infinity_spec::<T>(), found));
        assert(traced(e, s, deeper));
    }
}

/// The sum so far, the next ray and what came along it, taken together. It
/// holds of any three: it only names them.
pub open spec fn taken<T>(before: Vector<T, 3>, r: Ray<T>, c: Vector<T, 3>) -> bool {
    true
}

/// The digits of `n` in base ten, as the bytes of their characters.
pub open spec fn digits(n: nat) -> Seq<u8>
    decreases n,
{
    if n < 10 {
        seq![(48 + n) as u8]
    } else {
        digits(n / 10).push((48 + n % 10) as u8)
    }
}

/// The head of a plain portable pixmap of this size, with 255 for the
/// greatest value of a channel: the mark of the plain format, a capital `P`
/// and the digit three; the width and the height; and `255`; on three
/// lines.
pub open spec fn header(width: nat, height: nat) -> Seq<u8> {
    seq![80u8, 51u8, 10u8] + digits(width) + seq![32u8] + digits(height) + seq![
        10u8,
        50u8,
        53u8,
        53u8,
        10u8,
    ]
}

/// The line of a plain portable pixmap for one pixel: its three channels
/// in base ten with a blank between them.
pub open spec fn pixel_line(color: (u8, u8, u8)) -> Seq<u8> {
    digits(color.0 as nat) + seq![32u8] + digits(color.1 as nat) + seq![32u8] + digits(
        color.2 as nat,
    ) + seq![10u8]
}

/// The digits of `n` in base ten.
pub fn decimal(n: u64) -> (text: Vec<u8>)
    ensures
        text@ == digits(n as nat),
    decreases n,
{
    if n < 10 {
        let mut text: Vec<u8> = Vec::new();
        text.push(48 + (n as u8));
        assert(text@ =~= digits(n as nat));
        text
    } else {
        let mut text = decimal(n / 10);
        text.push(48 + ((n % 10) as u8));
        text
    }
}

/// Appends `more` to `text`.
fn append(text: &mut Vec<u8>, more: &Vec<u8>)
    ensures
        final(text)@ == old(text)@ + more@,
{
    let mut i: usize = 0;
    while i < more.len()
        invariant
            0 <= i <= more.len(),
            text@ == old(text)@ + more@.take(i as int),
        decreases more.len() - i,
    {
        text.push(more[i]);
        assert(text@ =~= old(text)@ + more@.take(i + 1));
        i += 1;
    }
    assert(more@.take(i as int) =~= more@);
}

impl<T: Scalar, W: Object<T>, B: Background<T>> Scene<T, W, B> where W::Mat: Material<T> {
    /// The scene of this camera, these shapes and this background.
    pub fn new(camera: Camera<T>, world: W, background: B) -> (s: Self)
        ensures
            s.camera == camera,
            s.world == world,
            s.background == background,
    {
        Scene { camera, world, background }
    }

    /// The light that comes along `r`, followed through at most `depth`
    /// surfaces. `unit` gives the vector of length one along a vector.
    pub fn ray_color<F: Fn(&Vector<T, 3>) -> Vector<T, 3>>(&self, r: &Ray<T>, depth: u32, unit: &F) -> (c:
        Vector<T, 3>)
        requires
            total::<T>(),
            forall|n: &Vector<T, 3>| call_requires(*unit, (n,)),
        ensures
            lawful::<T>() ==> shade(self.world, self.background, *unit, *r, depth as nat, c),
        decreases depth,
    {
        if depth == 0 {
            return Vector::<T, 3>::new(T::from(0u8), T::from(0u8), T::from(0u8));
        }
        let ahead = Interval::from(T::from(1u8) / T::from(1000u32));
        let found = self.world.hit(r, &ahead);
        let ghost seen = found;
        proof {
            if lawful::<T>() {
                assert(ahead == Interval::<T> { min: shadow_spec::<T>(), max: infinity_spec::<T>() });
                assert(answer(self.world, *r, shadow_spec::<T>(), infinity_spec::<T>(), seen));
            }
        }
        match found {
            Some(hit) => {
                let emitted = hit.mat.emitted(r, &hit);
                let scattered = hit.mat.scatter(r, &hit);
                let ghost sent = scattered;
                match scattered {
                    Some(scatter) => {
                        let deeper = self.ray_color(&scatter.ray, depth - 1, unit);
                        let c = emitted + scatter.att * deeper;
                        proof {
                            if lawful::<T>() {
                                assert(glows(*r, hit, emitted, sent));
                                assert(traced(emitted, sent, deeper));
                            }
                        }
                        c
                    },
                    None => {
                        proof {
                            if lawful::<T>() {
                                assert(glows(*r, hit, emitted, sent));
                                assert(traced(emitted, sent, emitted));
                            }
                        }
                        emitted
                    },
                }
            },
            None => {
                let dir = unit(&r.direction);
                let c = self.background.sample_bg(&dir);
                proof {
                    if lawful::<T>() {
                        assert(call_ensures(*unit, (&r.direction,), dir));
                        assert(sky(self.background, *unit, *r, c));
                        assert(traced::<T>(c, None, c));
                    }
                }
                c
            },
        }
    }

    /// The colour of one pixel before it is made into bytes: the mean of
    /// what comes along as many rays as the camera takes samples, each ray
    /// given by `sample`.
    pub fn render<F: Fn(&Vector<T, 3>) -> Vector<T, 3>, G: Fn() -> Ray<T>>(
        &self,
        sample: &G,
        unit: &F,
    ) -> (c: Vector<T, 3>)
        requires
            total::<T>(),
            forall|n: &Vector<T, 3>| call_requires(*unit, (n,)),
            call_requires(*sample, ()),
        ensures
            lawful::<T>() ==> exists|sum: Vector<T, 3>|
                {
                    &&& #[trigger] gathered(
                        self.world,
                        self.background,
                        *unit,
                        *sample,
                        self.camera.settings().4 as nat,
                        self.camera.settings().2 as nat,
                        sum,
                    )
                    &&& c@ == scaled(sum@, self.camera.settings().3)
                },
    {
        let mut pixel_color = Vector::<T, 3>::new(T::from(0u8), T::from(0u8), T::from(0u8));
        let samples: u32 = self.camera.sample_count();
        let depth: u32 = self.camera.depth();
        let mut k: u32 = 0;
        while k < samples
            invariant
                0 <= k <= samples,
                samples == self.camera.settings().2,
                depth == self.camera.settings().4,
                total::<T>(),
                forall|n: &Vector<T, 3>| call_requires(*unit, (n,)),
                call_requires(*sample, ()),
                lawful::<T>() ==> gathered(
                    self.world,
                    self.background,
                    *unit,
                    *sample,
                    self.camera.settings().4 as nat,
                    k as nat,
                    pixel_color,
                ),
            decreases samples - k,
        {
            let r = sample();
            let c = self.ray_color(&r, depth, unit);
            let ghost before = pixel_color;
            pixel_color = pixel_color + c;
            proof {
                if lawful::<T>() {
                    let n: nat = (k + 1) as nat;
                    assert(taken(before, r, c));
                    assert(call_ensures(*sample, (), r));
                    assert(gathered(
                        self.world,
                        self.background,
                        *unit,
                        *sample,
                        self.camera.settings().4 as nat,
                        (n - 1) as nat,
                        before,
                    ));
                    assert(shade(
                        self.world,
                        self.background,
                        *unit,
                        r,
                        self.camera.settings().4 as nat,
                        c,
                    ));
                    assert(gathered(
                        self.world,
                        self.background,
                        *unit,
                        *sample,
                        self.camera.settings().4 as nat,
                        n,
                        pixel_color,
                    ));
                }
            }
            k += 1;
        }
        pixel_color * self.camera.sample_scale()
    }

    /// The head of the picture as a plain portable pixmap.
    pub fn write_image_header(&self) -> (text: Vec<u8>)
        ensures
            text@ == header(self.camera.settings().0 as nat, self.camera.settings().1 as nat),
    {
        let mut text: Vec<u8> = Vec::new();
        text.push(80);
        text.push(51);
        text.push(10);
        append(&mut text, &decimal(self.camera.width() as u64));
        text.push(32);
        append(&mut text, &decimal(self.camera.height() as u64));
        text.push(10);
        text.push(50);
        text.push(53);
        text.push(53);
        text.push(10);
        assert(text@ =~= header(self.camera.settings().0 as nat, self.camera.settings().1 as nat));
        text
    }

    /// The line of the picture for one pixel.
    pub fn write_pixel(&self, color: (u8, u8, u8)) -> (text: Vec<u8>)
        ensures
            text@ == pixel_line(color),
    {
        let mut text: Vec<u8> = decimal(color.0 as u64);
        text.push(32);
        append(&mut text, &decimal(color.1 as u64));
        text.push(32);
        append(&mut text, &decimal(color.2 as u64));
        text.push(10);
        assert(text@ =~= pixel_line(color));
        text
    }
}

} // verus!
