//! What the traversal finds: the closest hit.
//!
//! The laws of this module hold of objects that answer as the hittable abstraction asks:
//! with the closest intersection inside the interval they are given, and with a miss where
//! there is none. For a fixed ray and near bound such an object is described by one value,
//! its nearest hit with no far bound at all; with a far bound it reports that hit if the
//! bound admits it. They also ask of the ray what a bounding box is for: that its slab test
//! does not reject the box of a node while an object under the node can be hit.
use vstd::prelude::*;
use crate::aabb::crossing_may;
use crate::bvh::{tree_may, BvhNode, BvhTree};
use crate::object::{
    far_bound, flip, later_or, sweep_may, EmptyObject, FlipFace, HitRecord, Object, Objects, Probe,
};
use crate::scalar::Scalar;

verus! {

/// What an object whose nearest hit is `full` reports when asked no farther than `t_max`.
pub open spec fn clip(full: Option<HitRecord>, t_max: Scalar) -> Option<HitRecord> {
    match full {
        Some(h) => if h.t.value() <= t_max.value() {
            full
        } else {
            None
        },
        None => None,
    }
}

/// What the object at `i` reports when asked no farther than `t_max`.
pub open spec fn reach(fulls: Seq<Option<HitRecord>>, i: usize, t_max: Scalar) -> Option<HitRecord> {
    clip(fulls[i as int], t_max)
}

/// For the ray `r` and the near bound `t_min`, `object` answers as an object whose nearest
/// hit is `full`: whatever far bound it is given, it reports that hit clipped to the bound.
pub open spec fn answers_as<R, T: Object<R>>(object: T, r: R, t_min: Scalar, full: Option<HitRecord>) -> bool {
    forall|t_max: Scalar, rec: Option<HitRecord>| #[trigger]
        object.may_hit(r, t_min, t_max, rec) ==> rec == clip(full, t_max)
}

/// Every one of `items` answers as an object whose nearest hit is its entry of `fulls`.
pub open spec fn all_answer<R, T: Object<R>>(
    items: Seq<T>,
    r: R,
    t_min: Scalar,
    fulls: Seq<Option<HitRecord>>,
) -> bool {
    &&& fulls.len() == items.len()
    &&& forall|i: int| 0 <= i < items.len() ==> answers_as(#[trigger] items[i], r, t_min, fulls[i])
}

/// The slab test of `r` fails for the box of no node of `tree` while an object under that
/// node can be hit within the interval.
pub open spec fn boxes_cover<R: Probe>(tree: BvhTree, fulls: Seq<Option<HitRecord>>, r: R, t_min: Scalar) -> bool
    decreases tree,
{
    match tree {
        BvhTree::Leaf { .. } => true,
        BvhTree::Node { left, right, bbox, .. } => {
            &&& boxes_cover(*left, fulls, r, t_min)
            &&& boxes_cover(*right, fulls, r, t_min)
            &&& forall|t_max: Scalar, i: usize|
                tree.leaves().contains(i) && #[trigger] reach(fulls, i, t_max) is Some
                    ==> !crossing_may(r, bbox, t_min, t_max, false)
        },
    }
}

/// `rec` is a closest hit among the objects named by `among`, asked no farther than
/// `t_max`: a miss only if all of them miss, and else the report of one of them to which
/// no other report is closer.
pub open spec fn is_closest(
    among: Set<usize>,
    fulls: Seq<Option<HitRecord>>,
    t_max: Scalar,
    rec: Option<HitRecord>,
) -> bool {
    match rec {
        None => forall|i: usize| among.contains(i) ==> #[trigger] reach(fulls, i, t_max) is None,
        Some(h) => {
            &&& exists|i: usize| among.contains(i) && #[trigger] reach(fulls, i, t_max) == Some(h)
            &&& forall|j: usize|
                among.contains(j) ==> (#[trigger] reach(fulls, j, t_max) matches Some(other)
                    ==> h.t.value() <= other.t.value())
        },
    }
}

/// The indices below `n`.
pub open spec fn below(n: int) -> Set<usize> {
    Set::new(|i: usize| i < n)
}

/// Two closest hits among the same objects are equally far: both are misses, or both are
/// hits with the same parameter.
pub proof fn lemma_closest_is_unique(
    among: Set<usize>,
    fulls: Seq<Option<HitRecord>>,
    t_max: Scalar,
    one: Option<HitRecord>,
    other: Option<HitRecord>,
)
    requires
        is_closest(among, fulls, t_max, one),
        is_closest(among, fulls, t_max, other),
    ensures
        one is Some <==> other is Some,
        one is Some ==> one.unwrap().t == other.unwrap().t,
{
    if one is Some {
        let h = one.unwrap();
        let i = choose|i: usize| among.contains(i) && #[trigger] reach(fulls, i, t_max) == Some(h);
        assert(reach(fulls, i, t_max) is Some);
        assert(other is Some);
        let k = other.unwrap();
        let j = choose|j: usize| among.contains(j) && #[trigger] reach(fulls, j, t_max) == Some(k);
        assert(h.t.value() <= k.t.value());
        assert(k.t.value() <= h.t.value());
    } else if other is Some {
        let k = other.unwrap();
        let j = choose|j: usize| among.contains(j) && #[trigger] reach(fulls, j, t_max) == Some(k);
        assert(reach(fulls, j, t_max) is Some);
    }
}

/// A closest hit among a single object is what that object reports.
pub proof fn lemma_closest_of_one(
    i: usize,
    fulls: Seq<Option<HitRecord>>,
    t_max: Scalar,
    rec: Option<HitRecord>,
)
    ensures
        is_closest(set![i], fulls, t_max, rec) <==> rec == reach(fulls, i, t_max),
{
    if is_closest(set![i], fulls, t_max, rec) {
        match rec {
            None => {
                assert(set![i].contains(i));
            },
            Some(h) => {
                let j = choose|j: usize| set![i].contains(j) && #[trigger] reach(fulls, j, t_max) == Some(h);
                assert(j == i);
            },
        }
    }
    if rec == reach(fulls, i, t_max) {
        match rec {
            None => {},
            Some(h) => {
                assert(set![i].contains(i) && reach(fulls, i, t_max) == Some(h));
            },
        }
    }
}

/// Asking one group of objects, and then a second group no farther than the hit of the
/// first, finds a closest hit among both: the hit of the second group where there is one,
/// else that of the first.
pub proof fn lemma_closest_of_both(
    first: Set<usize>,
    second: Set<usize>,
    fulls: Seq<Option<HitRecord>>,
    t_max: Scalar,
    earlier: Option<HitRecord>,
    later: Option<HitRecord>,
)
    requires
        is_closest(first, fulls, t_max, earlier),
        is_closest(second, fulls, far_bound(earlier, t_max), later),
    ensures
        is_closest(first.union(second), fulls, t_max, later_or(later, earlier)),
{
    let both = first.union(second);
    let rec = later_or(later, earlier);
    match earlier {
        None => {
            match later {
                None => {
                    assert forall|i: usize| both.contains(i) implies #[trigger] reach(fulls, i, t_max) is None by {
                        if first.contains(i) {
                        } else {
                            assert(second.contains(i));
                        }
                    }
                },
                Some(h) => {
                    let i = choose|i: usize| second.contains(i) && #[trigger] reach(fulls, i, t_max) == Some(h);
                    assert(both.contains(i) && reach(fulls, i, t_max) == Some(h));
                    assert forall|j: usize| both.contains(j) implies (#[trigger] reach(fulls, j, t_max) matches Some(
                        other,
                    ) ==> h.t.value() <= other.t.value()) by {
                        if first.contains(j) {
                        } else {
                            assert(second.contains(j));
                        }
                    }
                },
            }
        },
        Some(hl) => {
            let il = choose|i: usize| first.contains(i) && #[trigger] reach(fulls, i, t_max) == Some(hl);
            assert(hl.t.value() <= t_max.value());
            match later {
                None => {
                    assert(both.contains(il) && reach(fulls, il, t_max) == Some(hl));
                    assert forall|j: usize| both.contains(j) implies (#[trigger] reach(fulls, j, t_max) matches Some(
                        other,
                    ) ==> hl.t.value() <= other.t.value()) by {
                        if first.contains(j) {
                        } else {
                            assert(second.contains(j));
                            assert(reach(fulls, j, hl.t) is None);
                        }
                    }
                },
                Some(hr) => {
                    let ir = choose|i: usize| second.contains(i) && #[trigger] reach(fulls, i, hl.t) == Some(hr);
                    assert(hr.t.value() <= hl.t.value());
                    assert(both.contains(ir) && reach(fulls, ir, t_max) == Some(hr));
                    assert forall|j: usize| both.contains(j) implies (#[trigger] reach(fulls, j, t_max) matches Some(
                        other,
                    ) ==> hr.t.value() <= other.t.value()) by {
                        if first.contains(j) {
                        } else {
                            assert(second.contains(j));
                            if reach(fulls, j, t_max) is Some {
                                let other = reach(fulls, j, t_max).unwrap();
                                if other.t.value() <= hl.t.value() {
                                    assert(reach(fulls, j, hl.t) == Some(other));
                                }
                            }
                        }
                    }
                },
            }
        },
    }
}

/// The traversal of a hierarchy finds a closest hit among the objects under it.
pub proof fn lemma_traversal_finds_closest<R: Probe, T: Object<R>>(
    tree: BvhTree,
    items: Seq<T>,
    r: R,
    t_min: Scalar,
    t_max: Scalar,
    fulls: Seq<Option<HitRecord>>,
    rec: Option<HitRecord>,
)
    requires
        tree.within(items.len() as int),
        all_answer(items, r, t_min, fulls),
        boxes_cover(tree, fulls, r, t_min),
        tree_may(tree, items, r, t_min, t_max, rec),
    ensures
        is_closest(tree.leaves(), fulls, t_max, rec),
    decreases tree,
{
    match tree {
        BvhTree::Leaf { index } => {
            assert(answers_as(items[index as int], r, t_min, fulls[index as int]));
            assert(rec == reach(fulls, index, t_max));
            lemma_closest_of_one(index, fulls, t_max, rec);
        },
        BvhTree::Node { left, right, bbox, .. } => {
            if crossing_may(r, bbox, t_min, t_max, false) && rec is None {
                assert forall|i: usize| tree.leaves().contains(i) implies #[trigger] reach(fulls, i, t_max) is None by {
                    if reach(fulls, i, t_max) is Some {
                        assert(!crossing_may(r, bbox, t_min, t_max, false));
                    }
                }
            } else {
                let (l, rr) = choose|l: Option<HitRecord>, rr: Option<HitRecord>|
                    tree_may(*left, items, r, t_min, t_max, l) && tree_may(
                        *right,
                        items,
                        r,
                        t_min,
                        far_bound(l, t_max),
                        rr,
                    ) && #[trigger] crate::bvh::picks(rr, l, rec);
                lemma_traversal_finds_closest(*left, items, r, t_min, t_max, fulls, l);
                lemma_traversal_finds_closest(*right, items, r, t_min, far_bound(l, t_max), fulls, rr);
                lemma_closest_of_both(left.leaves(), right.leaves(), fulls, t_max, l, rr);
            }
        },
    }
}

/// The sweep over the first `n` objects of a list finds a closest hit among them.
pub proof fn lemma_sweep_finds_closest<R, T: Object<R>>(
    items: Seq<T>,
    n: int,
    r: R,
    t_min: Scalar,
    t_max: Scalar,
    fulls: Seq<Option<HitRecord>>,
    rec: Option<HitRecord>,
)
    requires
        0 <= n <= items.len() <= usize::MAX,
        all_answer(items, r, t_min, fulls),
        sweep_may(items, n, r, t_min, t_max, rec),
    ensures
        is_closest(below(n), fulls, t_max, rec),
    decreases n,
{
    if n > 0 {
        let (before, here) = choose|before: Option<HitRecord>, here: Option<HitRecord>|
            sweep_may(items, n - 1, r, t_min, t_max, before) && #[trigger] crate::object::sweep_step(
                items,
                n,
                r,
                t_min,
                t_max,
                before,
                here,
                rec,
            );
        lemma_sweep_finds_closest(items, n - 1, r, t_min, t_max, fulls, before);
        let last = (n - 1) as usize;
        assert(answers_as(items[n - 1], r, t_min, fulls[n - 1]));
        assert(here == reach(fulls, last, far_bound(before, t_max)));
        lemma_closest_of_one(last, fulls, far_bound(before, t_max), here);
        lemma_closest_of_both(below(n - 1), set![last], fulls, t_max, before, here);
        assert(below(n) =~= below(n - 1).union(set![last]));
    }
}

/// The object under a hierarchy over a single object.
pub open spec fn sole_object(tree: BvhTree) -> usize {
    match tree {
        BvhTree::Leaf { index } => index,
        BvhTree::Node { left, .. } => match *left {
            BvhTree::Leaf { index } => index,
            BvhTree::Node { .. } => 0,
        },
    }
}

/// A hierarchy over a single object reports exactly what that object reports.
pub proof fn lemma_hierarchy_of_one<R: Probe, T: Object<R>>(
    tree: BvhTree,
    items: Seq<T>,
    r: R,
    t_min: Scalar,
    t_max: Scalar,
    fulls: Seq<Option<HitRecord>>,
    rec: Option<HitRecord>,
)
    requires
        tree.spans(1),
        tree.within(items.len() as int),
        all_answer(items, r, t_min, fulls),
        boxes_cover(tree, fulls, r, t_min),
        tree_may(tree, items, r, t_min, t_max, rec),
    ensures
        rec == reach(fulls, sole_object(tree), t_max),
{
    reveal_with_fuel(BvhTree::leaves, 2);
    let index = sole_object(tree);
    lemma_traversal_finds_closest(tree, items, r, t_min, t_max, fulls, rec);
    assert(tree.leaves() =~= set![index]);
    lemma_closest_of_one(index, fulls, t_max, rec);
}

/// The hierarchy and the plain list agree: for a hierarchy over a whole list, what the
/// traversal reports and what the sweep over the list reports are both closest hits among
/// all the objects, so they are both misses or hits with the same parameter.
pub proof fn lemma_hierarchy_agrees_with_sweep<R: Probe, T: Object<R>>(
    node: BvhNode<T>,
    r: R,
    t_min: Scalar,
    t_max: Scalar,
    fulls: Seq<Option<HitRecord>>,
    by_tree: Option<HitRecord>,
    by_sweep: Option<HitRecord>,
)
    requires
        node.items().len() <= usize::MAX,
        node.covers(0, node.items().len() as int),
        all_answer(node.items(), r, t_min, fulls),
        boxes_cover(node.tree(), fulls, r, t_min),
        node.may_hit(r, t_min, t_max, by_tree),
        sweep_may(node.items(), node.items().len() as int, r, t_min, t_max, by_sweep),
    ensures
        is_closest(below(node.items().len() as int), fulls, t_max, by_tree),
        is_closest(below(node.items().len() as int), fulls, t_max, by_sweep),
        by_tree is Some <==> by_sweep is Some,
        by_tree is Some ==> by_tree.unwrap().t == by_sweep.unwrap().t,
{
    let n = node.items().len() as int;
    crate::bvh::lemma_well_formed_within(node.tree(), node.boxes());
    lemma_traversal_finds_closest(node.tree(), node.items(), r, t_min, t_max, fulls, by_tree);
    lemma_sweep_finds_closest(node.items(), n, r, t_min, t_max, fulls, by_sweep);
    assert(node.tree().leaves() =~= below(n));
    lemma_closest_is_unique(below(n), fulls, t_max, by_tree, by_sweep);
}

/// The bound that cuts nothing off.
pub open spec fn unbounded() -> Scalar {
    Scalar { rank: i32::MAX }
}

/// The nearest hit of a list of objects with the nearest hits `fulls`, as the sweep over
/// the first `n` of them finds it when no far bound is set.
pub open spec fn sweep_full(fulls: Seq<Option<HitRecord>>, n: int) -> Option<HitRecord>
    decreases n,
{
    if n <= 0 {
        None
    } else {
        let before = sweep_full(fulls, n - 1);
        later_or(clip(fulls[n - 1], far_bound(before, unbounded())), before)
    }
}

/// The nearest hit of a hierarchy over objects with the nearest hits `fulls`, as the
/// traversal finds it when no far bound is set and no box is rejected.
pub open spec fn tree_full(tree: BvhTree, fulls: Seq<Option<HitRecord>>) -> Option<HitRecord>
    decreases tree,
{
    match tree {
        BvhTree::Leaf { index } => fulls[index as int],
        BvhTree::Node { left, right, .. } => {
            let l = tree_full(*left, fulls);
            later_or(clip(tree_full(*right, fulls), far_bound(l, unbounded())), l)
        },
    }
}

/// Asking two objects in turn under a far bound finds what asking them without a bound
/// finds, clipped to the bound.
pub proof fn lemma_tighten(first: Option<HitRecord>, second: Option<HitRecord>, t_max: Scalar)
    ensures
        later_or(clip(second, far_bound(clip(first, t_max), t_max)), clip(first, t_max)) == clip(
            later_or(clip(second, far_bound(first, unbounded())), first),
            t_max,
        ),
{
}

/// A list of objects that answer as the hittable abstraction asks answers so itself: the
/// sweep reports the nearest hit of the list, clipped to the far bound.
pub proof fn lemma_list_answers<R, T: Object<R>>(
    list: Objects<T>,
    r: R,
    t_min: Scalar,
    fulls: Seq<Option<HitRecord>>,
)
    requires
        all_answer(list.objects@, r, t_min, fulls),
    ensures
        answers_as(list, r, t_min, sweep_full(fulls, list.objects@.len() as int)),
{
    let n = list.objects@.len() as int;
    assert forall|t_max: Scalar, rec: Option<HitRecord>| #[trigger]
        list.may_hit(r, t_min, t_max, rec) implies rec == clip(sweep_full(fulls, n), t_max) by {
        lemma_sweep_answers(list.objects@, n, r, t_min, t_max, fulls, rec);
    }
}

/// The sweep over the first `n` objects reports their nearest hit, clipped to the far
/// bound.
pub proof fn lemma_sweep_answers<R, T: Object<R>>(
    items: Seq<T>,
    n: int,
    r: R,
    t_min: Scalar,
    t_max: Scalar,
    fulls: Seq<Option<HitRecord>>,
    rec: Option<HitRecord>,
)
    requires
        0 <= n <= items.len(),
        all_answer(items, r, t_min, fulls),
        sweep_may(items, n, r, t_min, t_max, rec),
    ensures
        rec == clip(sweep_full(fulls, n), t_max),
    decreases n,
{
    if n > 0 {
        let (before, here) = choose|before: Option<HitRecord>, here: Option<HitRecord>|
            sweep_may(items, n - 1, r, t_min, t_max, before) && #[trigger] crate::object::sweep_step(
                items,
                n,
                r,
                t_min,
                t_max,
                before,
                here,
                rec,
            );
        lemma_sweep_answers(items, n - 1, r, t_min, t_max, fulls, before);
        assert(answers_as(items[n - 1], r, t_min, fulls[n - 1]));
        assert(here == clip(fulls[n - 1], far_bound(before, t_max)));
        lemma_tighten(sweep_full(fulls, n - 1), fulls[n - 1], t_max);
    }
}

/// The nearest hit of a hierarchy is the nearest hit of one of the objects under it.
pub proof fn lemma_tree_full_is_of_a_leaf(tree: BvhTree, fulls: Seq<Option<HitRecord>>)
    ensures
        tree_full(tree, fulls) is Some ==> exists|i: usize|
            tree.leaves().contains(i) && #[trigger] fulls[i as int] == tree_full(tree, fulls),
    decreases tree,
{
    match tree {
        BvhTree::Leaf { index } => {
            if tree_full(tree, fulls) is Some {
                assert(tree.leaves().contains(index) && fulls[index as int] == tree_full(tree, fulls));
            }
        },
        BvhTree::Node { left, right, .. } => {
            lemma_tree_full_is_of_a_leaf(*left, fulls);
            lemma_tree_full_is_of_a_leaf(*right, fulls);
            if tree_full(tree, fulls) is Some {
                if tree_full(tree, fulls) == tree_full(*left, fulls) {
                    let i = choose|i: usize|
                        left.leaves().contains(i) && #[trigger] fulls[i as int] == tree_full(*left, fulls);
                    assert(tree.leaves().contains(i) && fulls[i as int] == tree_full(tree, fulls));
                } else {
                    let i = choose|i: usize|
                        right.leaves().contains(i) && #[trigger] fulls[i as int] == tree_full(
                            *right,
                            fulls,
                        );
                    assert(tree.leaves().contains(i) && fulls[i as int] == tree_full(tree, fulls));
                }
            }
        },
    }
}

/// The traversal of a hierarchy reports the nearest hit of the hierarchy, clipped to the
/// far bound.
pub proof fn lemma_traversal_answers<R: Probe, T: Object<R>>(
    tree: BvhTree,
    items: Seq<T>,
    r: R,
    t_min: Scalar,
    t_max: Scalar,
    fulls: Seq<Option<HitRecord>>,
    rec: Option<HitRecord>,
)
    requires
        tree.within(items.len() as int),
        all_answer(items, r, t_min, fulls),
        boxes_cover(tree, fulls, r, t_min),
        tree_may(tree, items, r, t_min, t_max, rec),
    ensures
        rec == clip(tree_full(tree, fulls), t_max),
    decreases tree,
{
    match tree {
        BvhTree::Leaf { index } => {
            assert(answers_as(items[index as int], r, t_min, fulls[index as int]));
        },
        BvhTree::Node { left, right, bbox, .. } => {
            if crossing_may(r, bbox, t_min, t_max, false) && rec is None {
                lemma_tree_full_is_of_a_leaf(tree, fulls);
                if clip(tree_full(tree, fulls), t_max) is Some {
                    let i = choose|i: usize|
                        tree.leaves().contains(i) && #[trigger] fulls[i as int] == tree_full(tree, fulls);
                    assert(reach(fulls, i, t_max) is Some);
                }
            } else {
                let (l, rr) = choose|l: Option<HitRecord>, rr: Option<HitRecord>|
                    tree_may(*left, items, r, t_min, t_max, l) && tree_may(
                        *right,
                        items,
                        r,
                        t_min,
                        far_bound(l, t_max),
                        rr,
                    ) && #[trigger] crate::bvh::picks(rr, l, rec);
                lemma_traversal_answers(*left, items, r, t_min, t_max, fulls, l);
                lemma_traversal_answers(*right, items, r, t_min, far_bound(l, t_max), fulls, rr);
                lemma_tighten(tree_full(*left, fulls), tree_full(*right, fulls), t_max);
            }
        },
    }
}

/// A hierarchy over objects that answer as the hittable abstraction asks, with boxes
/// that cover them, answers so itself.
pub proof fn lemma_hierarchy_answers<R: Probe, T: Object<R>>(
    node: BvhNode<T>,
    r: R,
    t_min: Scalar,
    fulls: Seq<Option<HitRecord>>,
)
    requires
        node.tree().within(node.items().len() as int),
        all_answer(node.items(), r, t_min, fulls),
        boxes_cover(node.tree(), fulls, r, t_min),
    ensures
        answers_as(node, r, t_min, tree_full(node.tree(), fulls)),
{
    assert forall|t_max: Scalar, rec: Option<HitRecord>| #[trigger]
        node.may_hit(r, t_min, t_max, rec) implies rec == clip(tree_full(node.tree(), fulls), t_max) by {
        lemma_traversal_answers(node.tree(), node.items(), r, t_min, t_max, fulls, rec);
    }
}

/// The empty object answers as the hittable abstraction asks: it has no nearest hit.
pub proof fn lemma_empty_answers<R>(r: R, t_min: Scalar)
    ensures
        answers_as(EmptyObject {}, r, t_min, None),
{
}

/// A flipped object answers as the hittable abstraction asks if the object does: its
/// nearest hit is that of the object, flipped.
pub proof fn lemma_flipped_answers<R, T: Object<R>>(object: T, r: R, t_min: Scalar, full: Option<HitRecord>)
    requires
        answers_as(object, r, t_min, full),
    ensures
        answers_as(FlipFace { object }, r, t_min, flip(full)),
{
    let flipped = FlipFace { object };
    assert forall|t_max: Scalar, rec: Option<HitRecord>| #[trigger]
        flipped.may_hit(r, t_min, t_max, rec) implies rec == clip(flip(full), t_max) by {
        assert(object.may_hit(r, t_min, t_max, flip(rec)));
        crate::object::lemma_flip_involutive(rec);
    }
}

} // verus!
