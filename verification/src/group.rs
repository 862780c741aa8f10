//! A list of shapes that answers for all of them.
use vstd::prelude::*;
use crate::aabb::AABB;
use crate::interval::Interval;
use crate::object::{Hit, Object, reach};
use crate::ray::Ray;
use crate::scalar::{Scalar, total, lawful};

verus! {

/// Shapes in the order in which they are asked, and a box around them all.
pub struct Group<T: Scalar, L: Object<T>> {
    pub objects: Vec<L>,
    bbox: AABB<T>,
}

/// The boxes of `objects`, one each, as the shapes themselves give them.
pub open spec fn boxes_of<T: Scalar, L: Object<T>>(objects: Seq<L>, boxes: Seq<AABB<T>>) -> bool {
    &&& boxes.len() == objects.len()
    &&& forall|i: int|
        0 <= i < objects.len() ==> call_ensures(L::bbox, (&#[trigger] objects[i],), &boxes[i])
}

/// The box that grows from `start` by the first `n` of `boxes` in turn.
pub open spec fn grown<T: Scalar>(start: AABB<T>, boxes: Seq<AABB<T>>, n: nat) -> AABB<T>
    decreases n,
{
    if n == 0 {
        start
    } else {
        grown(start, boxes, (n - 1) as nat).grown_spec(boxes[n - 1])
    }
}

/// What a search through the first `n` of `objects` may end with. Each shape
/// is asked in turn for a hit between the lower end of `ray_t` and the
/// nearest hit so far; where it has one, that is the nearest from then on.
pub open spec fn scan<T: Scalar, L: Object<T>>(
    objects: Seq<L>,
    r: Ray<T>,
    ray_t: Interval<T>,
    n: nat,
    found: Option<Hit<T, L::Mat>>,
) -> bool
    decreases n,
{
    if n == 0 {
        found is None
    } else {
        exists|before: Option<Hit<T, L::Mat>>, h: Option<Hit<T, L::Mat>>|
            {
                &&& scan(objects, r, ray_t, (n - 1) as nat, before)
                &&& #[trigger] answer(objects[n - 1], r, ray_t.min, reach(before, ray_t.max), h)
                &&& found == (if h is Some {
                    h
                } else {
                    before
                })
            }
    }
}

/// `h` is what `object` gave when asked for a hit of `r` between `min` and
/// `max`.
pub open spec fn answer<T: Scalar, L: Object<T>>(
    object: L,
    r: Ray<T>,
    min: T,
    max: T,
    h: Option<Hit<T, L::Mat>>,
) -> bool {
    call_ensures(L::hit, (&object, &r, &Interval { min, max }), h)
}

impl<T: Scalar, L: Object<T>> Group<T, L> {
    /// The shapes, in the order in which they are asked.
    pub closed spec fn shapes(&self) -> Seq<L> {
        self.objects@
    }

    /// The box kept for the whole group.
    pub closed spec fn bounds(&self) -> AABB<T> {
        self.bbox
    }

    /// The group of these shapes. Its box grows from the empty box by the
    /// box of each shape in turn.
    pub fn new(objects: Vec<L>) -> (g: Self)
        requires
            total::<T>(),
        ensures
            g.shapes() == objects@,
            lawful::<T>() ==> exists|boxes: Seq<AABB<T>>|
                #![trigger boxes_of(objects@, boxes)]
                {
                    &&& boxes_of(objects@, boxes)
                    &&& g.bounds() == grown(
                        AABB::of(
                            Interval::empty_spec(),
                            Interval::empty_spec(),
                            Interval::empty_spec(),
                        ),
                        boxes,
                        objects@.len(),
                    )
                },
    {
        let start: AABB<T> = AABB::empty();
        let mut bbox: AABB<T> = start;
        let ghost mut boxes: Seq<AABB<T>> = Seq::empty();
        let mut i: usize = 0;
        while i < objects.len()
            invariant
                0 <= i <= objects.len(),
                boxes_of(objects@.take(i as int), boxes),
                lawful::<T>() ==> bbox == grown(start, boxes, i as nat),
            decreases objects.len() - i,
        {
            let b: &AABB<T> = objects[i].bbox();
            proof {
                let before = boxes;
                boxes = boxes.push(*b);
                assert(objects@.take(i + 1).drop_last() =~= objects@.take(i as int));
                assert forall|k: int| 0 <= k < i + 1 implies call_ensures(
                    L::bbox,
                    (&#[trigger] objects@.take(i + 1)[k],),
                    &boxes[k],
                ) by {
                    if k < i {
                        assert(objects@.take(i as int)[k] == objects@.take(i + 1)[k]);
                        assert(before[k] == boxes[k]);
                    }
                }
                lemma_grown_prefix(start, before, boxes, i as nat);
            }
            bbox.add_assign(b);
            i += 1;
        }
        proof {
            assert(objects@.take(i as int) =~= objects@);
        }
        Group { objects, bbox }
    }

    /// Gives the shapes up, in their order.
    pub fn into_objects(self) -> (objects: Vec<L>)
        ensures
            objects@ == self.shapes(),
    {
        self.objects
    }

    /// Adds a shape at the end and grows the box by its box.
    pub fn add(&mut self, object: L)
        ensures
            final(self).shapes() == old(self).shapes().push(object),
            lawful::<T>() ==> exists|b: AABB<T>|
                #![trigger old(self).bounds().grown_spec(b)]
                {
                    &&& call_ensures(L::bbox, (&object,), &b)
                    &&& final(self).bounds() == old(self).bounds().grown_spec(b)
                },
    {
        let b: &AABB<T> = object.bbox();
        let ghost given = *b;
        self.bbox.add_assign(b);
        self.objects.push(object);
        proof {
            if lawful::<T>() {
                assert(call_ensures(L::bbox, (&object,), &given));
                assert(self.bounds() == old(self).bounds().grown_spec(given));
            }
        }
    }
}

/// Growing by the first `n` boxes does not depend on what comes after them.
pub proof fn lemma_grown_prefix<T: Scalar>(
    start: AABB<T>,
    a: Seq<AABB<T>>,
    b: Seq<AABB<T>>,
    n: nat,
)
    requires
        n <= a.len(),
        n <= b.len(),
        forall|k: int| 0 <= k < n ==> a[k] == b[k],
    ensures
        grown(start, a, n) == grown(start, b, n),
    decreases n,
{
    if n > 0 {
        lemma_grown_prefix(start, a, b, (n - 1) as nat);
    }
}

impl<T: Scalar, L: Object<T>> Object<T> for Group<T, L> {
    type Mat = L::Mat;

    /// The nearest hit among the shapes, a later shape winning where it
    /// answers within the nearest so far.
    fn hit(&self, r: &Ray<T>, ray_t: &Interval<T>) -> (found: Option<Hit<T, L::Mat>>)
        ensures
            scan(self.shapes(), *r, *ray_t, self.shapes().len(), found),
    {
        let mut rec: Option<Hit<T, L::Mat>> = None;
        let mut closest: T = ray_t.max;
        let mut i: usize = 0;
        while i < self.objects.len()
            invariant
                total::<T>(),
                0 <= i <= self.objects.len(),
                scan(self.objects@, *r, *ray_t, i as nat, rec),
                closest == reach(rec, ray_t.max),
            decreases self.objects.len() - i,
        {
            let ghost before = rec;
            let window = Interval::new(ray_t.min, closest);
            let h = self.objects[i].hit(r, &window);
            proof {
                assert(answer(self.objects@[i as int], *r, ray_t.min, reach(before, ray_t.max), h));
            }
            let ghost got = h;
            if let Some(hit) = h {
                closest = hit.t;
                rec = Some(hit);
            }
            proof {
                assert(rec == (if got is Some {
                    got
                } else {
                    before
                }));
                assert(scan(self.objects@, *r, *ray_t, (i + 1) as nat, rec)) by {
                    assert(scan(self.objects@, *r, *ray_t, i as nat, before));
                    assert(answer(
                        self.objects@[(i + 1) - 1],
                        *r,
                        ray_t.min,
                        reach(before, ray_t.max),
                        got,
                    ));
                }
            }
            i += 1;
        }
        rec
    }

    /// The box around all the shapes.
    fn bbox(&self) -> (b: &AABB<T>)
        ensures
            *b == self.bounds(),
    {
        &self.bbox
    }
}

} // verus!
