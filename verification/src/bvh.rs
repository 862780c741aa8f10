//! A bounding-volume hierarchy: a binary tree over the shapes of a scene,
//! each node with a box around all that is below it, so that a ray asks only
//! the shapes whose boxes it passes through.
use vstd::prelude::*;
use crate::aabb::AABB;
use crate::group::{Group, answer, boxes_of, grown};
use crate::interval::Interval;
use crate::object::{Hit, Object, reach};
use crate::ray::Ray;
use crate::scalar::{Scalar, total, lawful};

verus! {

/// The shape of a hierarchy. A leaf names a shape by its place in the list
/// that the hierarchy was built over.
pub enum Tree<T> {
    Leaf { index: usize },
    Node { left: Box<Tree<T>>, right: Box<Tree<T>>, bbox: AABB<T> },
}

impl<T: Scalar> Tree<T> {
    /// The leaves from left to right.
    pub open spec fn order(self) -> Seq<usize>
        decreases self,
    {
        match self {
            Tree::Leaf { index } => seq![index],
            Tree::Node { left, right, bbox } => left.order() + right.order(),
        }
    }

    /// Every leaf names one of `n` shapes.
    pub open spec fn within(self, n: nat) -> bool
        decreases self,
    {
        match self {
            Tree::Leaf { index } => index < n,
            Tree::Node { left, right, bbox } => left.within(n) && right.within(n),
        }
    }

    /// The box of the tree: that of the shape for a leaf, the one kept for a
    /// node.
    pub open spec fn bounds(self, boxes: Seq<AABB<T>>) -> AABB<T> {
        match self {
            Tree::Leaf { index } => boxes[index as int],
            Tree::Node { left, right, bbox } => bbox,
        }
    }
}

/// The place in the total order of the 64-bit binary numbers of IEEE 754 of
/// the number with these bits, as an integer: numbers with the sign bit
/// clear are ordered by their bits, and before them come those with the
/// sign bit set, in the opposite order of their other bits. So minus zero
/// comes just before zero, infinity after all finite numbers, and what is
/// not a number at the two ends.
pub open spec fn rank_spec(bits: u64) -> int {
    if bits < 0x8000_0000_0000_0000 {
        bits as int
    } else {
        -(bits - 0x8000_0000_0000_0000) - 1
    }
}

/// The sort key of the number with these bits.
pub fn rank(bits: u64) -> (r: i64)
    ensures
        r == rank_spec(bits),
{
    if bits < 0x8000_0000_0000_0000 {
        bits as i64
    } else {
        -((bits - 0x8000_0000_0000_0000) as i64) - 1
    }
}

/// The sort keys order numbers as their bits say: of two numbers with the
/// sign bit clear, the one with the lesser bits comes first; of two with it
/// set, the one with the greater; and one with it set comes before one with
/// it clear. No two numbers share a key.
pub proof fn lemma_rank_orders(a: u64, b: u64)
    ensures
        a < 0x8000_0000_0000_0000 && b < 0x8000_0000_0000_0000 ==> (rank_spec(a) < rank_spec(b)
            <==> a < b),
        a >= 0x8000_0000_0000_0000 && b >= 0x8000_0000_0000_0000 ==> (rank_spec(a) < rank_spec(b)
            <==> a > b),
        a >= 0x8000_0000_0000_0000 && b < 0x8000_0000_0000_0000 ==> rank_spec(a) < rank_spec(b),
        rank_spec(a) == rank_spec(b) ==> a == b,
{
}

/// The sort keys of all shapes along one axis.
pub open spec fn column(ranks: Seq<[i64; 3]>, axis: int) -> Seq<i64> {
    Seq::new(ranks.len(), |i: int| ranks[i][axis])
}

/// `perm` lists the places `0 .. n`, each once.
pub open spec fn rearranges(perm: Seq<int>, n: int) -> bool {
    &&& perm.len() == n
    &&& forall|k: int| 0 <= k < n ==> 0 <= #[trigger] perm[k] < n
    &&& forall|i: int, j: int| 0 <= i < j < n ==> perm[i] != perm[j]
}

/// `out` is `inp` sorted by `key` with ties left in their order: `out[k]` is
/// what stood at place `perm[k]` of `inp`, the keys ascend, and of two with
/// the same key the one that stood first still does.
pub open spec fn stably_sorted(out: Seq<usize>, inp: Seq<usize>, key: Seq<i64>, perm: Seq<int>) -> bool {
    &&& out.len() == inp.len()
    &&& rearranges(perm, inp.len() as int)
    &&& forall|k: int| 0 <= k < out.len() ==> #[trigger] out[k] == inp[perm[k]]
    &&& forall|i: int, j: int|
        0 <= i < j < out.len() ==> key[out[i] as int] <= key[out[j] as int] && (key[out[i] as int]
            == key[out[j] as int] ==> perm[i] < perm[j])
}

/// The boxes of the shapes that `ids` name, in that order.
pub open spec fn picked<T: Scalar>(boxes: Seq<AABB<T>>, ids: Seq<usize>) -> Seq<AABB<T>> {
    Seq::new(ids.len(), |j: int| boxes[ids[j] as int])
}

/// The box around the shapes that `ids` name: grown from the empty box by
/// each of theirs in turn.
pub open spec fn around<T: Scalar>(boxes: Seq<AABB<T>>, ids: Seq<usize>) -> AABB<T> {
    grown(
        AABB::of(Interval::empty_spec(), Interval::empty_spec(), Interval::empty_spec()),
        picked(boxes, ids),
        ids.len(),
    )
}

/// `sorted` is the order in which a node over `ids` deals its shapes out to
/// its children. Two shapes stay as they are. More are sorted, ties in
/// their order, by their keys along the axis on which the box around them
/// is longest.
pub open spec fn dealt<T: Scalar>(
    sorted: Seq<usize>,
    ids: Seq<usize>,
    boxes: Seq<AABB<T>>,
    ranks: Seq<[i64; 3]>,
) -> bool {
    if ids.len() == 2 {
        sorted == ids
    } else {
        exists|axis: int, perm: Seq<int>|
            {
                &&& 0 <= axis < 3
                &&& lawful::<T>() ==> axis == around(boxes, ids).longest_axis_spec()
                &&& #[trigger] stably_sorted(sorted, ids, column(ranks, axis), perm)
            }
    }
}

/// `tree` is the hierarchy over the shapes that `ids` name. One shape is a
/// leaf. Of more, a node's left child is the hierarchy over the first half
/// of them as dealt, rounded down, its right child the one over the rest,
/// and its box the union of its children's.
pub open spec fn built<T: Scalar>(
    tree: Tree<T>,
    boxes: Seq<AABB<T>>,
    ranks: Seq<[i64; 3]>,
    ids: Seq<usize>,
) -> bool
    decreases tree,
{
    match tree {
        Tree::Leaf { index } => ids == seq![index],
        Tree::Node { left, right, bbox } => {
            &&& ids.len() >= 2
            &&& lawful::<T>() ==> bbox == left.bounds(boxes).union_spec(right.bounds(boxes))
            &&& exists|sorted: Seq<usize>|
                {
                    &&& #[trigger] dealt(sorted, ids, boxes, ranks)
                    &&& built(*left, boxes, ranks, sorted.take(ids.len() as int / 2))
                    &&& built(*right, boxes, ranks, sorted.skip(ids.len() as int / 2))
                }
        },
    }
}

/// `through` is what the slab test of `bbox` gave for `r` and `ray_t`.
pub open spec fn verdict<T: Scalar>(bbox: AABB<T>, r: Ray<T>, ray_t: Interval<T>, through: bool) -> bool {
    lawful::<T>() ==> through == bbox.hit_spec(r, ray_t)
}

/// What a search of `tree` may end with. A leaf gives what its shape
/// answers. A node whose box the ray misses gives nothing. Otherwise the
/// left child is searched in `ray_t`, then the right child between the lower
/// end of `ray_t` and the hit of the left, or in all of `ray_t` where the
/// left had none; a hit of the right child wins over one of the left.
pub open spec fn probe<T: Scalar, L: Object<T>>(
    tree: Tree<T>,
    leaves: Seq<L>,
    r: Ray<T>,
    ray_t: Interval<T>,
    h: Option<Hit<T, L::Mat>>,
) -> bool
    decreases tree,
{
    match tree {
        Tree::Leaf { index } => answer(leaves[index as int], r, ray_t.min, ray_t.max, h),
        Tree::Node { left, right, bbox } => exists|
            through: bool,
            hl: Option<Hit<T, L::Mat>>,
            hr: Option<Hit<T, L::Mat>>,
        |
            #![trigger verdict(bbox, r, ray_t, through), both(hl, hr)]
            {
                &&& verdict(bbox, r, ray_t, through)
                &&& both(hl, hr)
                &&& if !through {
                    h is None
                } else {
                    &&& probe(*left, leaves, r, ray_t, hl)
                    &&& probe(
                        *right,
                        leaves,
                        r,
                        Interval { min: ray_t.min, max: reach(hl, ray_t.max) },
                        hr,
                    )
                    &&& h == (if hr is Some {
                        hr
                    } else {
                        hl
                    })
                }
            },
    }
}

/// The answers of the two children of a node, taken together. It holds of
/// any two: it only names them.
pub open spec fn both<T, M>(hl: Option<Hit<T, M>>, hr: Option<Hit<T, M>>) -> bool {
    true
}

/// Sorts `ids` by the key of each along `axis`, ties left in their order.
/// This is `sort_by_key` of the standard library's slices, which is
/// documented to sort by the extracted key and to be stable; the contract
/// says that and no more.
#[verifier::external_body]
fn sort_by_rank(ids: &mut Vec<usize>, ranks: &Vec<[i64; 3]>, axis: usize)
    requires
        axis < 3,
        forall|k: int| 0 <= k < old(ids)@.len() ==> old(ids)@[k] < ranks@.len(),
    ensures
        exists|perm: Seq<int>| #[trigger]
            stably_sorted(final(ids)@, old(ids)@, column(ranks@, axis as int), perm),
{
    ids.sort_by_key(|id| ranks[*id][axis]);
}

/// A stable sort names the same shapes as it was given.
pub proof fn lemma_sorted_names(out: Seq<usize>, inp: Seq<usize>, key: Seq<i64>, perm: Seq<int>, n: nat)
    requires
        stably_sorted(out, inp, key, perm),
        forall|k: int| 0 <= k < inp.len() ==> inp[k] < n,
    ensures
        forall|k: int| 0 <= k < out.len() ==> out[k] < n,
{
    assert forall|k: int| 0 <= k < out.len() implies out[k] < n by {
        assert(out[k] == inp[perm[k]]);
    }
}

/// A bounding-volume hierarchy over a list of shapes.
pub struct BVH<T: Scalar, L: Object<T>> {
    leaves: Vec<L>,
    boxes: Vec<AABB<T>>,
    root: Tree<T>,
}

impl<T: Scalar, L: Object<T>> BVH<T, L> {
    #[verifier::type_invariant]
    spec fn inv(&self) -> bool {
        &&& self.boxes@.len() == self.leaves@.len()
        &&& self.root.within(self.leaves@.len())
    }

    /// The shapes, in the order in which they were given.
    pub closed spec fn shapes(&self) -> Seq<L> {
        self.leaves@
    }

    /// The box that each shape gave when the hierarchy was built.
    pub closed spec fn boxes(&self) -> Seq<AABB<T>> {
        self.boxes@
    }

    /// The tree.
    pub closed spec fn tree(&self) -> Tree<T> {
        self.root
    }

    /// The box of `tree`.
    fn bounds_of<'a>(tree: &'a Tree<T>, boxes: &'a Vec<AABB<T>>) -> (b: &'a AABB<T>)
        requires
            tree.within(boxes@.len()),
        ensures
            *b == tree.bounds(boxes@),
    {
        match tree {
            Tree::Leaf { index } => &boxes[*index],
            Tree::Node { left, right, bbox } => bbox,
        }
    }

    /// The box around the shapes that `ids` name.
    fn enclose(boxes: &Vec<AABB<T>>, ids: &Vec<usize>) -> (bbox: AABB<T>)
        requires
            total::<T>(),
            forall|k: int| 0 <= k < ids@.len() ==> ids@[k] < boxes@.len(),
        ensures
            lawful::<T>() ==> bbox == around(boxes@, ids@),
    {
        let start: AABB<T> = AABB::empty();
        let mut bbox: AABB<T> = start;
        let mut k: usize = 0;
        while k < ids.len()
            invariant
                0 <= k <= ids.len(),
                forall|j: int| 0 <= j < ids@.len() ==> ids@[j] < boxes@.len(),
                lawful::<T>() ==> bbox == grown(start, picked(boxes@, ids@), k as nat),
            decreases ids.len() - k,
        {
            bbox.add_assign(&boxes[ids[k]]);
            k += 1;
        }
        bbox
    }

    /// The hierarchy over the shapes that `ids` names.
    fn build(boxes: &Vec<AABB<T>>, ranks: &Vec<[i64; 3]>, ids: Vec<usize>) -> (tree: Tree<T>)
        requires
            total::<T>(),
            ids@.len() >= 1,
            ranks@.len() == boxes@.len(),
            forall|k: int| 0 <= k < ids@.len() ==> ids@[k] < boxes@.len(),
        ensures
            built(tree, boxes@, ranks@, ids@),
            tree.within(boxes@.len()),
        decreases ids@.len(),
    {
        let n: usize = ids.len();
        if n == 1 {
            let tree = Tree::Leaf { index: ids[0] };
            assert(ids@ =~= seq![ids@[0]]);
            tree
        } else if n == 2 {
            let l: usize = ids[0];
            let r: usize = ids[1];
            let bbox: AABB<T> = boxes[l] + boxes[r];
            let tree = Tree::Node {
                left: Box::new(Tree::Leaf { index: l }),
                right: Box::new(Tree::Leaf { index: r }),
                bbox,
            };
            proof {
                assert(dealt(ids@, ids@, boxes@, ranks@));
                assert(ids@.take(1) =~= seq![l]);
                assert(ids@.skip(1) =~= seq![r]);
                assert(built(Tree::<T>::Leaf { index: l }, boxes@, ranks@, ids@.take(1)));
                assert(built(Tree::<T>::Leaf { index: r }, boxes@, ranks@, ids@.skip(1)));
                assert(built(tree, boxes@, ranks@, ids@));
                assert(Tree::<T>::Leaf { index: l }.within(boxes@.len()));
                assert(Tree::<T>::Leaf { index: r }.within(boxes@.len()));
                assert(tree.within(boxes@.len()));
            }
            tree
        } else {
            let bbox: AABB<T> = Self::enclose(boxes, &ids);
            let axis: usize = bbox.longest_axis();
            let ghost given = ids@;
            let mut ids = ids;
            sort_by_rank(&mut ids, ranks, axis);
            let ghost sorted = ids@;
            proof {
                let perm = choose|perm: Seq<int>| #[trigger]
                    stably_sorted(sorted, given, column(ranks@, axis as int), perm);
                lemma_sorted_names(sorted, given, column(ranks@, axis as int), perm, boxes@.len());
                assert(dealt(sorted, given, boxes@, ranks@));
            }
            let rest: Vec<usize> = ids.split_off(n / 2);
            proof {
                assert(ids@ =~= sorted.take(given.len() as int / 2));
                assert(rest@ =~= sorted.skip(given.len() as int / 2));
            }
            let left = Self::build(boxes, ranks, ids);
            let right = Self::build(boxes, ranks, rest);
            let bbox: AABB<T> = *Self::bounds_of(&left, boxes) + *Self::bounds_of(&right, boxes);
            let tree = Tree::Node { left: Box::new(left), right: Box::new(right), bbox };
            proof {
                assert(built(left, boxes@, ranks@, sorted.take(given.len() as int / 2)));
                assert(built(right, boxes@, ranks@, sorted.skip(given.len() as int / 2)));
                assert(built(tree, boxes@, ranks@, given));
                assert(tree.within(boxes@.len()));
            }
            tree
        }
    }

    /// The hierarchy over `objects`. `ranks` holds for each shape, in the
    /// same order, the three integers by which it is sorted along the three
    /// axes: those that order the shapes as the lower ends of their boxes
    /// are ordered. There must be at least one shape.
    pub fn new(objects: Vec<L>, ranks: Vec<[i64; 3]>) -> (bvh: Self)
        requires
            total::<T>(),
            objects@.len() >= 1,
            ranks@.len() == objects@.len(),
        ensures
            bvh.shapes() == objects@,
            boxes_of(objects@, bvh.boxes()),
            bvh.tree().within(objects@.len()),
            built(
                bvh.tree(),
                bvh.boxes(),
                ranks@,
                Seq::new(objects@.len(), |i: int| i as usize),
            ),
    {
        let mut boxes: Vec<AABB<T>> = Vec::new();
        let mut ids: Vec<usize> = Vec::new();
        let mut i: usize = 0;
        while i < objects.len()
            invariant
                0 <= i <= objects.len(),
                boxes@.len() == i,
                ids@ == Seq::new(i as nat, |k: int| k as usize),
                forall|k: int|
                    0 <= k < i ==> call_ensures(L::bbox, (&#[trigger] objects@[k],), &boxes@[k]),
            decreases objects.len() - i,
        {
            let b: &AABB<T> = objects[i].bbox();
            boxes.push(*b);
            ids.push(i);
            assert(ids@ =~= Seq::new((i + 1) as nat, |k: int| k as usize));
            i += 1;
        }
        let root = Self::build(&boxes, &ranks, ids);
        BVH { leaves: objects, boxes, root }
    }

    /// The tree.
    pub fn root(&self) -> (tree: &Tree<T>)
        ensures
            *tree == self.tree(),
    {
        &self.root
    }

    /// The shapes, in the order in which they were given.
    pub fn objects(&self) -> (leaves: &Vec<L>)
        ensures
            leaves@ == self.shapes(),
    {
        &self.leaves
    }

    /// The hierarchy over the shapes of a group.
    pub fn from_group(group: Group<T, L>, ranks: Vec<[i64; 3]>) -> (bvh: Self)
        requires
            total::<T>(),
            group.shapes().len() >= 1,
            ranks@.len() == group.shapes().len(),
        ensures
            bvh.shapes() == group.shapes(),
            boxes_of(group.shapes(), bvh.boxes()),
            built(
                bvh.tree(),
                bvh.boxes(),
                ranks@,
                Seq::new(group.shapes().len(), |i: int| i as usize),
            ),
    {
        Self::new(group.into_objects(), ranks)
    }

    /// Searches `tree`.
    fn descend(tree: &Tree<T>, leaves: &Vec<L>, r: &Ray<T>, ray_t: &Interval<T>) -> (h: Option<
        Hit<T, L::Mat>,
    >)
        requires
            total::<T>(),
            tree.within(leaves@.len()),
        ensures
            probe(*tree, leaves@, *r, *ray_t, h),
        decreases tree,
    {
        match tree {
            Tree::Leaf { index } => {
                let h = leaves[*index].hit(r, ray_t);
                assert(Interval { min: ray_t.min, max: ray_t.max } == *ray_t);
                assert(probe(*tree, leaves@, *r, *ray_t, h));
                h
            },
            Tree::Node { left, right, bbox } => {
                let through = bbox.hit(r, *ray_t);
                assert(verdict(*bbox, *r, *ray_t, through));
                if !through {
                    assert(both::<T, L::Mat>(None, None));
                    assert(probe(*tree, leaves@, *r, *ray_t, None));
                    return None;
                }
                let hl = Self::descend(left, leaves, r, ray_t);
                let ghost got = hl;
                match hl {
                    Some(l) => {
                        let window = Interval::new(ray_t.min, l.t);
                        let hr = Self::descend(right, leaves, r, &window);
                        let ghost second = hr;
                        let h = if hr.is_some() {
                            hr
                        } else {
                            Some(l)
                        };
                        proof {
                            assert(probe(**left, leaves@, *r, *ray_t, got));
                            assert(probe(
                                **right,
                                leaves@,
                                *r,
                                Interval { min: ray_t.min, max: reach(got, ray_t.max) },
                                second,
                            ));
                            assert(h == (if second is Some {
                                second
                            } else {
                                got
                            }));
                            assert(both(got, second));
                            assert(probe(*tree, leaves@, *r, *ray_t, h));
                        }
                        h
                    },
                    None => {
                        let hr = Self::descend(right, leaves, r, ray_t);
                        proof {
                            assert(probe(**left, leaves@, *r, *ray_t, got));
                            assert(Interval { min: ray_t.min, max: reach(got, ray_t.max) } == *ray_t);
                            assert(probe(
                                **right,
                                leaves@,
                                *r,
                                Interval { min: ray_t.min, max: reach(got, ray_t.max) },
                                hr,
                            ));
                            assert(both(got, hr));
                            assert(probe(*tree, leaves@, *r, *ray_t, hr));
                        }
                        hr
                    },
                }
            },
        }
    }
}

impl<T: Scalar, L: Object<T>> Object<T> for BVH<T, L> {
    type Mat = L::Mat;

    /// What the search of the tree ends with.
    fn hit(&self, r: &Ray<T>, ray_t: &Interval<T>) -> (h: Option<Hit<T, L::Mat>>)
        ensures
            probe(self.tree(), self.shapes(), *r, *ray_t, h),
    {
        proof {
            use_type_invariant(self);
        }
        Self::descend(&self.root, &self.leaves, r, ray_t)
    }

    /// The box of the root.
    fn bbox(&self) -> (b: &AABB<T>)
        ensures
            *b == self.tree().bounds(self.boxes()),
    {
        proof {
            use_type_invariant(self);
        }
        Self::bounds_of(&self.root, &self.boxes)
    }
}

} // verus!
