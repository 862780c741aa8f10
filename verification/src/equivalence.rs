//! A hierarchy finds what a list finds.
//!
//! The search of a hierarchy and the search of a list are both folds over the
//! shapes: each shape in turn is asked for a hit before the nearest so far.
//! Where every shape answers with its own nearest hit, and no two hits lie
//! equally far along the ray, such a fold ends with the nearest hit of all,
//! in whatever order the shapes are asked. A hierarchy asks them in the
//! order of its leaves, and leaves out only what lies under a box that the
//! ray misses.
use vstd::prelude::*;
use crate::aabb::AABB;
use crate::bvh::{Tree, probe, verdict, both, built, dealt, stably_sorted, rearranges};
use crate::group::{answer, scan};
use crate::interval::Interval;
use crate::object::{Hit, Object, reach};
use crate::ray::Ray;
use crate::scalar::{Scalar, lawful, ordered, below, above, at_most, level};

verus! {

/// What shape `i` answers for an upper bound `max`: its own nearest hit
/// `cand(i)`, where it has one and lets it pass under that bound.
pub open spec fn gate<T, M>(
    cand: spec_fn(int) -> Option<Hit<T, M>>,
    acc: spec_fn(int, T) -> bool,
    i: int,
    max: T,
) -> Option<Hit<T, M>> {
    if cand(i) is Some && acc(i, max) {
        cand(i)
    } else {
        None
    }
}

/// Every shape answers the ray `r`, asked from `tmin` to any upper bound,
/// with its own nearest hit or with nothing, as `gate` says.
pub open spec fn faithful<T: Scalar, L: Object<T>>(
    leaves: Seq<L>,
    r: Ray<T>,
    tmin: T,
    cand: spec_fn(int) -> Option<Hit<T, L::Mat>>,
    acc: spec_fn(int, T) -> bool,
) -> bool {
    forall|i: int, max: T, h: Option<Hit<T, L::Mat>>|
        0 <= i < leaves.len() && #[trigger] answer(leaves[i], r, tmin, max, h) ==> h == gate(
            cand,
            acc,
            i,
            max,
        )
}

/// A hit that passes under a bound lies at most at the bound; it passes
/// under every bound beyond, and under every bound between itself and that
/// one, itself left out.
pub open spec fn windowed<T: Scalar, M>(
    cand: spec_fn(int) -> Option<Hit<T, M>>,
    acc: spec_fn(int, T) -> bool,
    n: int,
) -> bool {
    &&& forall|i: int, max: T|
        0 <= i < n && cand(i) is Some && #[trigger] acc(i, max) ==> at_most(cand(i)->0.t, max)
    &&& forall|i: int, m1: T, m2: T|
        0 <= i < n && cand(i) is Some && #[trigger] acc(i, m1) && at_most(m1, m2)
            ==> #[trigger] acc(i, m2)
    &&& forall|i: int, m1: T, m2: T|
        0 <= i < n && cand(i) is Some && #[trigger] acc(i, m1) && below(cand(i)->0.t, m2)
            && at_most(m2, m1) ==> #[trigger] acc(i, m2)
}

/// No two shapes have their nearest hits equally far along the ray.
pub open spec fn apart<T: Scalar, M>(cand: spec_fn(int) -> Option<Hit<T, M>>, n: int) -> bool {
    forall|i: int, j: int|
        0 <= i < n && 0 <= j < n && i != j && (#[trigger] cand(i)) is Some && (#[trigger] cand(
            j,
        )) is Some ==> below(cand(i)->0.t, cand(j)->0.t) || below(cand(j)->0.t, cand(i)->0.t)
}

/// What asking the shapes `ids` in turn ends with, each asked for a hit
/// before the nearest so far and at most at `max`.
pub open spec fn sweep<T, M>(
    cand: spec_fn(int) -> Option<Hit<T, M>>,
    acc: spec_fn(int, T) -> bool,
    ids: Seq<usize>,
    max: T,
) -> Option<Hit<T, M>>
    decreases ids.len(),
{
    if ids.len() == 0 {
        None
    } else {
        let before = sweep(cand, acc, ids.drop_last(), max);
        let c = gate(cand, acc, ids.last() as int, reach(before, max));
        if c is Some {
            c
        } else {
            before
        }
    }
}

/// The shapes `0, 1, .., n - 1` in that order.
pub open spec fn in_turn(n: nat) -> Seq<usize> {
    Seq::new(n, |i: int| i as usize)
}

/// The ray passes through the box of every node under which a shape lets
/// its hit pass, for the bound that it lets it pass under.
pub open spec fn sound<T: Scalar, M>(
    tree: Tree<T>,
    cand: spec_fn(int) -> Option<Hit<T, M>>,
    acc: spec_fn(int, T) -> bool,
    r: Ray<T>,
    tmin: T,
) -> bool
    decreases tree,
{
    match tree {
        Tree::Leaf { index } => true,
        Tree::Node { left, right, bbox } => {
            &&& sound(*left, cand, acc, r, tmin)
            &&& sound(*right, cand, acc, r, tmin)
            &&& forall|k: int, max: T|
                0 <= k < tree.order().len() && cand(tree.order()[k] as int) is Some && #[trigger] acc(
                    tree.order()[k] as int,
                    max,
                ) ==> bbox.hit_spec(r, Interval { min: tmin, max })
        },
    }
}

/// Two lists name the same shapes, each once.
pub open spec fn same_shapes(a: Seq<usize>, b: Seq<usize>) -> bool {
    &&& a.no_duplicates()
    &&& b.no_duplicates()
    &&& forall|x: usize| a.contains(x) <==> b.contains(x)
}

/// Asking one list of shapes and then another is asking the first, and then
/// the second before what the first ended with.
pub proof fn lemma_sweep_concat<T, M>(
    cand: spec_fn(int) -> Option<Hit<T, M>>,
    acc: spec_fn(int, T) -> bool,
    a: Seq<usize>,
    b: Seq<usize>,
    max: T,
)
    ensures
        sweep(cand, acc, a + b, max) == ({
            let first = sweep(cand, acc, a, max);
            let second = sweep(cand, acc, b, reach(first, max));
            if second is Some {
                second
            } else {
                first
            }
        }),
    decreases b.len(),
{
    if b.len() == 0 {
        assert(a + b =~= a);
    } else {
        lemma_sweep_concat(cand, acc, a, b.drop_last(), max);
        assert((a + b).drop_last() =~= a + b.drop_last());
        assert((a + b).last() == b.last());
    }
}

/// Where no shape of a list lets a hit pass under `max`, asking them ends
/// with nothing.
pub proof fn lemma_sweep_none<T, M>(
    cand: spec_fn(int) -> Option<Hit<T, M>>,
    acc: spec_fn(int, T) -> bool,
    ids: Seq<usize>,
    max: T,
)
    requires
        forall|k: int| 0 <= k < ids.len() ==> gate(cand, acc, #[trigger] ids[k] as int, max) is None,
    ensures
        sweep(cand, acc, ids, max) is None,
    decreases ids.len(),
{
    if ids.len() > 0 {
        assert forall|k: int| 0 <= k < ids.drop_last().len() implies gate(
            cand,
            acc,
            #[trigger] ids.drop_last()[k] as int,
            max,
        ) is None by {
            assert(ids.drop_last()[k] == ids[k]);
        }
        lemma_sweep_none(cand, acc, ids.drop_last(), max);
        assert(gate(cand, acc, ids[ids.len() - 1] as int, max) is None);
    }
}

/// The search of a list is a sweep over its shapes in turn.
pub proof fn lemma_scan_is_sweep<T: Scalar, L: Object<T>>(
    leaves: Seq<L>,
    r: Ray<T>,
    ray_t: Interval<T>,
    cand: spec_fn(int) -> Option<Hit<T, L::Mat>>,
    acc: spec_fn(int, T) -> bool,
    n: nat,
    found: Option<Hit<T, L::Mat>>,
)
    requires
        n <= leaves.len(),
        n <= usize::MAX,
        faithful(leaves, r, ray_t.min, cand, acc),
        scan(leaves, r, ray_t, n, found),
    ensures
        found == sweep(cand, acc, in_turn(n), ray_t.max),
    decreases n,
{
    if n > 0 {
        let (before, h) = choose|before: Option<Hit<T, L::Mat>>, h: Option<Hit<T, L::Mat>>|
            {
                &&& scan(leaves, r, ray_t, (n - 1) as nat, before)
                &&& #[trigger] answer(leaves[n - 1], r, ray_t.min, reach(before, ray_t.max), h)
                &&& found == (if h is Some {
                    h
                } else {
                    before
                })
            };
        lemma_scan_is_sweep(leaves, r, ray_t, cand, acc, (n - 1) as nat, before);
        assert(in_turn(n).drop_last() =~= in_turn((n - 1) as nat));
        assert(in_turn(n).last() == (n - 1) as usize);
    }
}

/// The search of a hierarchy is a sweep over its leaves from left to
/// right.
pub proof fn lemma_probe_is_sweep<T: Scalar, L: Object<T>>(
    tree: Tree<T>,
    leaves: Seq<L>,
    r: Ray<T>,
    tmin: T,
    max: T,
    cand: spec_fn(int) -> Option<Hit<T, L::Mat>>,
    acc: spec_fn(int, T) -> bool,
    h: Option<Hit<T, L::Mat>>,
)
    requires
        lawful::<T>(),
        tree.within(leaves.len()),
        faithful(leaves, r, tmin, cand, acc),
        sound(tree, cand, acc, r, tmin),
        probe(tree, leaves, r, Interval { min: tmin, max }, h),
    ensures
        h == sweep(cand, acc, tree.order(), max),
    decreases tree,
{
    match tree {
        Tree::Leaf { index } => {
            assert(tree.order().drop_last() =~= Seq::<usize>::empty());
            assert(sweep(cand, acc, Seq::<usize>::empty(), max) is None);
        },
        Tree::Node { left, right, bbox } => {
            let ray_t = Interval { min: tmin, max };
            let (through, hl, hr) = choose|
                through: bool,
                hl: Option<Hit<T, L::Mat>>,
                hr: Option<Hit<T, L::Mat>>,
            |
                #![trigger verdict(bbox, r, ray_t, through), both(hl, hr)]
                {
                    &&& verdict(bbox, r, ray_t, through)
                    &&& both(hl, hr)
                    &&& if !through {
                        h is None
                    } else {
                        &&& probe(*left, leaves, r, ray_t, hl)
                        &&& probe(
                            *right,
                            leaves,
                            r,
                            Interval { min: ray_t.min, max: reach(hl, ray_t.max) },
                            hr,
                        )
                        &&& h == (if hr is Some {
                            hr
                        } else {
                            hl
                        })
                    }
                };
            if !through {
                assert forall|k: int| 0 <= k < tree.order().len() implies gate(
                    cand,
                    acc,
                    #[trigger] tree.order()[k] as int,
                    max,
                ) is None by {
                    if cand(tree.order()[k] as int) is Some && acc(tree.order()[k] as int, max) {
                        assert(bbox.hit_spec(r, Interval { min: tmin, max }));
                    }
                }
                lemma_sweep_none(cand, acc, tree.order(), max);
            } else {
                lemma_probe_is_sweep(*left, leaves, r, tmin, max, cand, acc, hl);
                lemma_probe_is_sweep(*right, leaves, r, tmin, reach(hl, max), cand, acc, hr);
                lemma_sweep_concat(cand, acc, left.order(), right.order(), max);
            }
        },
    }
}

/// `best` is the nearest of the hits that the shapes `ids` let pass under
/// `max`: nothing where none does, and else the hit of one of them, nearer
/// than that of every other.
pub open spec fn nearest<T: Scalar, M>(
    cand: spec_fn(int) -> Option<Hit<T, M>>,
    acc: spec_fn(int, T) -> bool,
    ids: Seq<usize>,
    max: T,
    best: Option<Hit<T, M>>,
) -> bool {
    match best {
        None => forall|k: int|
            0 <= k < ids.len() ==> gate(cand, acc, #[trigger] ids[k] as int, max) is None,
        Some(x) => exists|w: int|
            {
                &&& 0 <= w < ids.len()
                &&& #[trigger] gate(cand, acc, ids[w] as int, max) == Some(x)
                &&& forall|k: int|
                    0 <= k < ids.len() && k != w && gate(cand, acc, #[trigger] ids[k] as int, max)
                        is Some ==> below(x.t, cand(ids[k] as int)->0.t)
            },
    }
}

/// Nothing lies before itself.
pub proof fn lemma_not_before_itself<T: Scalar>(a: T)
    requires
        ordered::<T>(),
    ensures
        !below(a, a),
{
    assert(below(a, a) <==> above(a, a));
}

/// A sweep ends with the nearest hit of all that pass.
pub proof fn lemma_sweep_is_nearest<T: Scalar, M>(
    cand: spec_fn(int) -> Option<Hit<T, M>>,
    acc: spec_fn(int, T) -> bool,
    n: int,
    ids: Seq<usize>,
    max: T,
)
    requires
        ordered::<T>(),
        windowed(cand, acc, n),
        apart(cand, n),
        ids.no_duplicates(),
        forall|k: int| 0 <= k < ids.len() ==> #[trigger] ids[k] < n,
    ensures
        nearest(cand, acc, ids, max, sweep(cand, acc, ids, max)),
    decreases ids.len(),
{
    if ids.len() > 0 {
        let front = ids.drop_last();
        let last = ids.last() as int;
        let before = sweep(cand, acc, front, max);
        lemma_sweep_is_nearest(cand, acc, n, front, max);
        assert forall|k: int| 0 <= k < front.len() implies front[k] == ids[k] by {}
        let c = gate(cand, acc, last, reach(before, max));
        match before {
            None => {
                if c is Some {
                    assert(gate(cand, acc, ids[ids.len() - 1] as int, max) == c);
                }
            },
            Some(y) => {
                let w = choose|w: int|
                    {
                        &&& 0 <= w < front.len()
                        &&& #[trigger] gate(cand, acc, front[w] as int, max) == Some(y)
                        &&& forall|k: int|
                            0 <= k < front.len() && k != w && gate(
                                cand,
                                acc,
                                #[trigger] front[k] as int,
                                max,
                            ) is Some ==> below(y.t, cand(front[k] as int)->0.t)
                    };
                let holder = front[w] as int;
                assert(ids[w] == front[w]);
                assert(holder != last);
                assert(cand(holder) == Some(y) && acc(holder, max));
                assert(at_most(y.t, max));
                if c is Some {
                    let x = c->0;
                    // The newcomer passes before the nearest so far: it is
                    // nearer, and it passes under the bound too.
                    assert(acc(last, y.t));
                    assert(at_most(x.t, y.t));
                    assert(below(x.t, y.t) || below(y.t, x.t));
                    if below(y.t, x.t) {
                        lemma_not_before_itself(x.t);
                    }
                    assert(below(x.t, y.t));
                    assert(acc(last, max));
                    assert(gate(cand, acc, ids[ids.len() - 1] as int, max) == Some(x));
                    assert forall|k: int|
                        0 <= k < ids.len() && k != ids.len() - 1 && gate(
                            cand,
                            acc,
                            #[trigger] ids[k] as int,
                            max,
                        ) is Some implies below(x.t, cand(ids[k] as int)->0.t) by {
                        assert(ids[k] == front[k]);
                        if k != w {
                            assert(below(y.t, cand(front[k] as int)->0.t));
                            assert(at_most(y.t, cand(front[k] as int)->0.t));
                        }
                    }
                } else {
                    // The newcomer does not pass before the nearest so far:
                    // where it passes under the bound at all, it lies
                    // beyond.
                    assert(gate(cand, acc, ids[w] as int, max) == Some(y));
                    assert forall|k: int|
                        0 <= k < ids.len() && k != w && gate(cand, acc, #[trigger] ids[k] as int, max)
                            is Some implies below(y.t, cand(ids[k] as int)->0.t) by {
                        if k == ids.len() - 1 {
                            let x = cand(last)->0;
                            assert(acc(last, max));
                            assert(!acc(last, y.t));
                            assert(below(x.t, y.t) || below(y.t, x.t));
                        } else {
                            assert(ids[k] == front[k]);
                        }
                    }
                }
            },
        }
    }
}

/// The nearest hit of all that pass does not depend on the order in which
/// the shapes are listed.
pub proof fn lemma_nearest_is_one<T: Scalar, M>(
    cand: spec_fn(int) -> Option<Hit<T, M>>,
    acc: spec_fn(int, T) -> bool,
    a: Seq<usize>,
    b: Seq<usize>,
    max: T,
    x: Option<Hit<T, M>>,
    y: Option<Hit<T, M>>,
)
    requires
        ordered::<T>(),
        same_shapes(a, b),
        nearest(cand, acc, a, max, x),
        nearest(cand, acc, b, max, y),
    ensures
        x == y,
{
    match x {
        None => {
            if y is Some {
                let w = choose|w: int|
                    0 <= w < b.len() && #[trigger] gate(cand, acc, b[w] as int, max) == Some(y->0);
                assert(b.contains(b[w]));
                assert(a.contains(b[w]));
                let k = choose|k: int| 0 <= k < a.len() && a[k] == b[w];
                assert(gate(cand, acc, a[k] as int, max) is None);
            }
        },
        Some(p) => {
            let wa = choose|w: int|
                {
                    &&& 0 <= w < a.len()
                    &&& #[trigger] gate(cand, acc, a[w] as int, max) == Some(p)
                    &&& forall|k: int|
                        0 <= k < a.len() && k != w && gate(cand, acc, #[trigger] a[k] as int, max)
                            is Some ==> below(p.t, cand(a[k] as int)->0.t)
                };
            assert(a.contains(a[wa]));
            assert(b.contains(a[wa]));
            let kb = choose|k: int| 0 <= k < b.len() && b[k] == a[wa];
            match y {
                None => {
                    assert(gate(cand, acc, b[kb] as int, max) is None);
                },
                Some(q) => {
                    let wb = choose|w: int|
                        {
                            &&& 0 <= w < b.len()
                            &&& #[trigger] gate(cand, acc, b[w] as int, max) == Some(q)
                            &&& forall|k: int|
                                0 <= k < b.len() && k != w && gate(
                                    cand,
                                    acc,
                                    #[trigger] b[k] as int,
                                    max,
                                ) is Some ==> below(q.t, cand(b[k] as int)->0.t)
                        };
                    if kb != wb {
                        // Each of the two would lie before the other.
                        assert(gate(cand, acc, b[kb] as int, max) is Some);
                        assert(below(q.t, p.t));
                        assert(a.contains(b[wb]));
                        let ka = choose|k: int| 0 <= k < a.len() && a[k] == b[wb];
                        assert(ka != wa);
                        assert(gate(cand, acc, a[ka] as int, max) is Some);
                        assert(below(p.t, q.t));
                        assert(at_most(q.t, p.t));
                        lemma_not_before_itself(p.t);
                    }
                },
            }
        },
    }
}

/// A hierarchy and a list over the same shapes answer a ray alike.
///
/// Let every shape answer the ray with its own nearest hit, or with
/// nothing where that does not pass under the bound asked for; let no two
/// of those hits lie equally far along the ray; and let the ray pass
/// through every box of the hierarchy under which a hit passes. Then what
/// a search of the hierarchy ends with is what a search of the list ends
/// with.
pub proof fn lemma_hierarchy_finds_what_list_finds<T: Scalar, L: Object<T>>(
    tree: Tree<T>,
    leaves: Seq<L>,
    r: Ray<T>,
    ray_t: Interval<T>,
    cand: spec_fn(int) -> Option<Hit<T, L::Mat>>,
    acc: spec_fn(int, T) -> bool,
    by_tree: Option<Hit<T, L::Mat>>,
    by_list: Option<Hit<T, L::Mat>>,
)
    requires
        lawful::<T>(),
        ordered::<T>(),
        leaves.len() <= usize::MAX,
        tree.within(leaves.len()),
        same_shapes(tree.order(), in_turn(leaves.len())),
        faithful(leaves, r, ray_t.min, cand, acc),
        windowed(cand, acc, leaves.len() as int),
        apart(cand, leaves.len() as int),
        sound(tree, cand, acc, r, ray_t.min),
        probe(tree, leaves, r, ray_t, by_tree),
        scan(leaves, r, ray_t, leaves.len(), by_list),
    ensures
        by_tree == by_list,
{
    let n = leaves.len();
    assert(ray_t == Interval { min: ray_t.min, max: ray_t.max });
    lemma_probe_is_sweep(tree, leaves, r, ray_t.min, ray_t.max, cand, acc, by_tree);
    lemma_scan_is_sweep(leaves, r, ray_t, cand, acc, n, by_list);
    lemma_within_names(tree, n);
    lemma_sweep_is_nearest(cand, acc, n as int, tree.order(), ray_t.max);
    lemma_sweep_is_nearest(cand, acc, n as int, in_turn(n), ray_t.max);
    lemma_nearest_is_one(
        cand,
        acc,
        tree.order(),
        in_turn(n),
        ray_t.max,
        by_tree,
        by_list,
    );
}

/// The leaves of a tree within `n` shapes name shapes below `n`.
pub proof fn lemma_within_names<T: Scalar>(tree: Tree<T>, n: nat)
    requires
        tree.within(n),
    ensures
        forall|k: int| 0 <= k < tree.order().len() ==> #[trigger] tree.order()[k] < n,
    decreases tree,
{
    match tree {
        Tree::Leaf { index } => {
            assert(tree.order() =~= seq![index]);
        },
        Tree::Node { left, right, bbox } => {
            lemma_within_names(*left, n);
            lemma_within_names(*right, n);
            assert forall|k: int| 0 <= k < tree.order().len() implies #[trigger] tree.order()[k]
                < n by {
                if k < left.order().len() {
                    assert(tree.order()[k] == left.order()[k]);
                } else {
                    assert(tree.order()[k] == right.order()[k - left.order().len()]);
                }
            }
        },
    }
}

/// A list rearranged names the same shapes, each once.
pub proof fn lemma_rearranged_same_shapes(out: Seq<usize>, inp: Seq<usize>, perm: Seq<int>)
    requires
        inp.no_duplicates(),
        out.len() == inp.len(),
        rearranges(perm, inp.len() as int),
        forall|k: int| 0 <= k < out.len() ==> #[trigger] out[k] == inp[perm[k]],
    ensures
        same_shapes(out, inp),
{
    assert forall|i: int, j: int| 0 <= i < out.len() && 0 <= j < out.len() && i != j implies out[i]
        != out[j] by {
        assert(out[i] == inp[perm[i]]);
        assert(out[j] == inp[perm[j]]);
        if i < j {
            assert(perm[i] != perm[j]);
        } else {
            assert(perm[j] != perm[i]);
        }
    }
    assert forall|x: usize| out.to_set().contains(x) implies inp.to_set().contains(x) by {
        let k = choose|k: int| 0 <= k < out.len() && out[k] == x;
        assert(out[k] == inp[perm[k]]);
    }
    out.unique_seq_to_set();
    inp.unique_seq_to_set();
    vstd::seq_lib::seq_to_set_is_finite(out);
    vstd::seq_lib::seq_to_set_is_finite(inp);
    vstd::set_lib::lemma_subset_equality(out.to_set(), inp.to_set());
    assert forall|x: usize| out.contains(x) <==> inp.contains(x) by {
        assert(out.to_set().contains(x) <==> out.contains(x));
        assert(inp.to_set().contains(x) <==> inp.contains(x));
    }
}

/// The leaves of a hierarchy built over a list of shapes name the shapes of
/// the list, each once.
pub proof fn lemma_built_same_shapes<T: Scalar>(
    tree: Tree<T>,
    boxes: Seq<AABB<T>>,
    ranks: Seq<[i64; 3]>,
    ids: Seq<usize>,
)
    requires
        ids.no_duplicates(),
        built(tree, boxes, ranks, ids),
    ensures
        same_shapes(tree.order(), ids),
    decreases tree,
{
    match tree {
        Tree::Leaf { index } => {
            assert(tree.order() =~= ids);
        },
        Tree::Node { left, right, bbox } => {
            let half = ids.len() as int / 2;
            let sorted = choose|sorted: Seq<usize>|
                {
                    &&& #[trigger] dealt(sorted, ids, boxes, ranks)
                    &&& built(*left, boxes, ranks, sorted.take(half))
                    &&& built(*right, boxes, ranks, sorted.skip(half))
                };
            if ids.len() != 2 {
                let (axis, perm) = choose|axis: int, perm: Seq<int>|
                    {
                        &&& 0 <= axis < 3
                        &&& lawful::<T>() ==> axis == crate::bvh::around(boxes, ids).longest_axis_spec()
                        &&& #[trigger] stably_sorted(sorted, ids, crate::bvh::column(ranks, axis), perm)
                    };
                lemma_rearranged_same_shapes(sorted, ids, perm);
            }
            assert(same_shapes(sorted, ids));
            let a = sorted.take(half);
            let b = sorted.skip(half);
            lemma_built_same_shapes(*left, boxes, ranks, a);
            lemma_built_same_shapes(*right, boxes, ranks, b);
            let lo = left.order();
            let ro = right.order();
            assert forall|i: int, j: int| 0 <= i < lo.len() && 0 <= j < ro.len() implies lo[i]
                != ro[j] by {
                assert(lo.contains(lo[i]));
                assert(ro.contains(ro[j]));
                assert(a.contains(lo[i]));
                assert(b.contains(ro[j]));
                let p = choose|p: int| 0 <= p < a.len() && a[p] == lo[i];
                let q = choose|q: int| 0 <= q < b.len() && b[q] == ro[j];
                assert(a[p] == sorted[p]);
                assert(b[q] == sorted[q + half]);
            }
            vstd::seq_lib::lemma_no_dup_in_concat(lo, ro);
            assert forall|x: usize| tree.order().contains(x) <==> ids.contains(x) by {
                if tree.order().contains(x) {
                    let k = choose|k: int| 0 <= k < tree.order().len() && tree.order()[k] == x;
                    if k < lo.len() {
                        assert(lo[k] == x);
                        assert(lo.contains(x));
                        assert(a.contains(x));
                        let p = choose|p: int| 0 <= p < a.len() && a[p] == x;
                        assert(sorted[p] == x);
                    } else {
                        assert(ro[k - lo.len()] == x);
                        assert(ro.contains(x));
                        assert(b.contains(x));
                        let q = choose|q: int| 0 <= q < b.len() && b[q] == x;
                        assert(sorted[q + half] == x);
                    }
                    assert(sorted.contains(x));
                }
                if ids.contains(x) {
                    assert(sorted.contains(x));
                    let k = choose|k: int| 0 <= k < sorted.len() && sorted[k] == x;
                    if k < half {
                        assert(a[k] == x);
                        assert(a.contains(x));
                        assert(lo.contains(x));
                        let p = choose|p: int| 0 <= p < lo.len() && lo[p] == x;
                        assert(tree.order()[p] == x);
                    } else {
                        assert(b[k - half] == x);
                        assert(b.contains(x));
                        assert(ro.contains(x));
                        let q = choose|q: int| 0 <= q < ro.len() && ro[q] == x;
                        assert(tree.order()[lo.len() + q] == x);
                    }
                }
            }
        },
    }
}

/// A hierarchy built over a list of shapes answers a ray as the list does,
/// under what `lemma_hierarchy_finds_what_list_finds` asks of the shapes
/// and of the boxes.
pub proof fn lemma_built_hierarchy_finds_what_list_finds<T: Scalar, L: Object<T>>(
    tree: Tree<T>,
    boxes: Seq<AABB<T>>,
    ranks: Seq<[i64; 3]>,
    leaves: Seq<L>,
    r: Ray<T>,
    ray_t: Interval<T>,
    cand: spec_fn(int) -> Option<Hit<T, L::Mat>>,
    acc: spec_fn(int, T) -> bool,
    by_tree: Option<Hit<T, L::Mat>>,
    by_list: Option<Hit<T, L::Mat>>,
)
    requires
        lawful::<T>(),
        ordered::<T>(),
        leaves.len() <= usize::MAX,
        tree.within(leaves.len()),
        built(tree, boxes, ranks, in_turn(leaves.len())),
        faithful(leaves, r, ray_t.min, cand, acc),
        windowed(cand, acc, leaves.len() as int),
        apart(cand, leaves.len() as int),
        sound(tree, cand, acc, r, ray_t.min),
        probe(tree, leaves, r, ray_t, by_tree),
        scan(leaves, r, ray_t, leaves.len(), by_list),
    ensures
        by_tree == by_list,
{
    lemma_built_same_shapes(tree, boxes, ranks, in_turn(leaves.len()));
    lemma_hierarchy_finds_what_list_finds(tree, leaves, r, ray_t, cand, acc, by_tree, by_list);
}

} // verus!
