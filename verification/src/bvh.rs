//! The bounding-volume hierarchy: a binary tree of boxes over a list of objects.
//!
//! The objects stay where they are, in one list; the tree holds their indices. A node is made
//! over a run of the list by choosing an axis at random, ordering the run by the smallest
//! corner of the objects' boxes on that axis and handing each half to a child.
use core::cmp::Ordering;
use vstd::prelude::*;
use crate::aabb::{crossing_may, spec_surrounding_box, surrounding_box, Aabb};
use crate::geom::Axis;
use crate::object::{far_bound, later_or, HitRecord, Object, Objects, Probe, TimeRange};
use crate::random::random_index;
use crate::scalar::Scalar;

verus! {

/// A hierarchy over the objects of a list, which it names by their indices.
pub enum BvhTree {
    /// One object of the list.
    Leaf { index: usize },
    /// Two subtrees, the axis on which their objects were ordered, and the union of their
    /// boxes.
    Node { axis: Axis, left: Box<BvhTree>, right: Box<BvhTree>, bbox: Aabb },
}

/// The key by which the hierarchy orders the object at `index`: the coordinate of the
/// smallest corner of its box on `axis`.
pub open spec fn spec_key(boxes: Seq<Aabb>, index: usize, axis: Axis) -> int {
    boxes[index as int].box_min.spec_get(axis).value()
}

/// The entries of `order` at the positions from `lo` up to, not including, `hi`.
pub open spec fn range_set(order: Seq<usize>, lo: int, hi: int) -> Set<usize> {
    Set::new(|x: usize| exists|k: int| lo <= k < hi && order[k] == x)
}

/// The entries of `order` from `lo` to `hi` are in ascending order of their keys on `axis`.
pub open spec fn sorted_on(order: Seq<usize>, boxes: Seq<Aabb>, axis: Axis, lo: int, hi: int) -> bool {
    forall|a: int, b: int|
        lo <= a <= b < hi ==> spec_key(boxes, #[trigger] order[a], axis) <= spec_key(
            boxes,
            #[trigger] order[b],
            axis,
        )
}

/// Two orders of one length agree at every position outside the run from `lo` to `hi`.
pub open spec fn same_outside(a: Seq<usize>, b: Seq<usize>, lo: int, hi: int) -> bool {
    &&& a.len() == b.len()
    &&& forall|k: int| 0 <= k < a.len() && !(lo <= k < hi) ==> #[trigger] a[k] == b[k]
}

/// Every entry of `order` from `lo` to `hi` is an index below `n`.
pub open spec fn entries_below(order: Seq<usize>, lo: int, hi: int, n: int) -> bool {
    forall|k: int| lo <= k < hi ==> #[trigger] order[k] < n
}

impl BvhTree {
    /// The box of the tree: that of the object for a leaf, the stored one for a node.
    pub open spec fn tree_box(self, boxes: Seq<Aabb>) -> Aabb {
        match self {
            BvhTree::Leaf { index } => boxes[index as int],
            BvhTree::Node { bbox, .. } => bbox,
        }
    }

    /// The indices of the objects under the tree.
    pub open spec fn leaves(self) -> Set<usize>
        decreases self,
    {
        match self {
            BvhTree::Leaf { index } => set![index],
            BvhTree::Node { left, right, .. } => left.leaves().union(right.leaves()),
        }
    }

    /// The invariant of the hierarchy over the boxes of the objects: every leaf names an
    /// object, every node's box is the union of its children's boxes, and on the node's
    /// axis no object of the left child has a larger key than one of the right child.
    pub open spec fn well_formed(self, boxes: Seq<Aabb>) -> bool
        decreases self,
    {
        match self {
            BvhTree::Leaf { index } => index < boxes.len(),
            BvhTree::Node { axis, left, right, bbox } => {
                &&& left.well_formed(boxes)
                &&& right.well_formed(boxes)
                &&& bbox == spec_surrounding_box(left.tree_box(boxes), right.tree_box(boxes))
                &&& forall|i: usize, j: usize|
                    #[trigger] left.leaves().contains(i) && #[trigger] right.leaves().contains(j)
                        ==> spec_key(boxes, i, axis) <= spec_key(boxes, j, axis)
            },
        }
    }

    /// The tree is the node over the two objects `first` and `second`: a leaf each, the
    /// one with the smaller key on the node's axis to the left, and `first` to the left
    /// where the keys are equal.
    pub open spec fn holds_pair(self, first: usize, second: usize, boxes: Seq<Aabb>) -> bool {
        match self {
            BvhTree::Leaf { .. } => false,
            BvhTree::Node { axis, left, right, .. } => {
                let pair = spec_order_pair(boxes, first, second, axis);
                *left == (BvhTree::Leaf { index: pair.0 }) && *right == (BvhTree::Leaf {
                    index: pair.1,
                })
            },
        }
    }

    /// The tree is the node over the single object `only`: that object as both children.
    pub open spec fn holds_one(self, only: usize) -> bool {
        match self {
            BvhTree::Leaf { .. } => false,
            BvhTree::Node { left, right, .. } => {
                *left == (BvhTree::Leaf { index: only }) && *right == (BvhTree::Leaf { index: only })
            },
        }
    }

    /// The shape of a hierarchy over a run of `n` objects: a single object becomes both
    /// children of a node, two objects become one child each, and a longer run is split
    /// at its midpoint, the left child taking the smaller half.
    pub open spec fn spans(self, n: nat) -> bool
        decreases self,
    {
        match self {
            BvhTree::Leaf { .. } => false,
            BvhTree::Node { left, right, .. } => {
                if n == 1 {
                    *left is Leaf && *right == *left
                } else if n == 2 {
                    *left is Leaf && *right is Leaf
                } else {
                    n >= 3 && left.spans(n / 2) && right.spans((n - n / 2) as nat)
                }
            },
        }
    }
}

/// A run of an order is made of its two parts.
pub proof fn lemma_range_set_split(order: Seq<usize>, lo: int, mid: int, hi: int)
    requires
        lo <= mid <= hi,
    ensures
        range_set(order, lo, hi) == range_set(order, lo, mid).union(range_set(order, mid, hi)),
{
    let whole = range_set(order, lo, hi);
    let parts = range_set(order, lo, mid).union(range_set(order, mid, hi));
    assert forall|x: usize| whole.contains(x) <==> parts.contains(x) by {
        if whole.contains(x) {
            let k = choose|k: int| lo <= k < hi && order[k] == x;
            if k < mid {
                assert(range_set(order, lo, mid).contains(x));
            } else {
                assert(range_set(order, mid, hi).contains(x));
            }
        }
        if range_set(order, lo, mid).contains(x) {
            let k = choose|k: int| lo <= k < mid && order[k] == x;
            assert(lo <= k < hi && order[k] == x);
        }
        if range_set(order, mid, hi).contains(x) {
            let k = choose|k: int| mid <= k < hi && order[k] == x;
            assert(lo <= k < hi && order[k] == x);
        }
    }
    assert(whole =~= parts);
}

/// Two orders that agree on a run have the same entries there.
pub proof fn lemma_range_set_agree(a: Seq<usize>, b: Seq<usize>, lo: int, hi: int)
    requires
        forall|k: int| lo <= k < hi ==> a[k] == b[k],
    ensures
        range_set(a, lo, hi) == range_set(b, lo, hi),
{
    assert forall|x: usize| range_set(a, lo, hi).contains(x) <==> range_set(b, lo, hi).contains(
        x,
    ) by {
        if range_set(a, lo, hi).contains(x) {
            let k = choose|k: int| lo <= k < hi && a[k] == x;
            assert(lo <= k < hi && b[k] == x);
        }
        if range_set(b, lo, hi).contains(x) {
            let k = choose|k: int| lo <= k < hi && b[k] == x;
            assert(lo <= k < hi && a[k] == x);
        }
    }
    assert(range_set(a, lo, hi) =~= range_set(b, lo, hi));
}

/// Exchanging two entries of a run changes neither the entries of the run nor the order
/// as a multiset.
pub proof fn lemma_exchange(order: Seq<usize>, lo: int, hi: int, a: int, b: int)
    requires
        0 <= lo <= a < hi <= order.len(),
        lo <= b < hi,
    ensures
        range_set(order.update(a, order[b]).update(b, order[a]), lo, hi) == range_set(
            order,
            lo,
            hi,
        ),
        order.update(a, order[b]).update(b, order[a]).to_multiset() == order.to_multiset(),
{
    broadcast use vstd::seq_lib::to_multiset_update;
    broadcast use vstd::seq_lib::to_multiset_contains;
    broadcast use vstd::multiset::group_multiset_axioms;

    let after = order.update(a, order[b]).update(b, order[a]);
    assert forall|x: usize| range_set(after, lo, hi).contains(x) <==> range_set(
        order,
        lo,
        hi,
    ).contains(x) by {
        if range_set(after, lo, hi).contains(x) {
            let k = choose|k: int| lo <= k < hi && after[k] == x;
            if k == a {
                assert(lo <= b < hi && order[b] == x);
            } else if k == b {
                assert(lo <= a < hi && order[a] == x);
            } else {
                assert(lo <= k < hi && order[k] == x);
            }
        }
        if range_set(order, lo, hi).contains(x) {
            let k = choose|k: int| lo <= k < hi && order[k] == x;
            if k == a {
                assert(lo <= b < hi && after[b] == x);
            } else if k == b {
                assert(lo <= a < hi && after[a] == x);
            } else {
                assert(lo <= k < hi && after[k] == x);
            }
        }
    }
    assert(range_set(after, lo, hi) =~= range_set(order, lo, hi));
    let step = order.update(a, order[b]);
    let m = order.to_multiset();
    assert(order.contains(order[a]));
    assert(order.contains(order[b]));
    assert(m.count(order[a]) > 0);
    assert(m.count(order[b]) > 0);
    assert(step.to_multiset() == m.insert(order[b]).remove(order[a]));
    assert(step[b] == order[b]);
    assert(after.to_multiset() == step.to_multiset().insert(order[a]).remove(order[b]));
    assert forall|x: usize| after.to_multiset().count(x) == m.count(x) by {
        let m1 = m.insert(order[b]);
        let m2 = m1.remove(order[a]);
        let m3 = m2.insert(order[a]);
        let m4 = m3.remove(order[b]);
        assert(m1.count(order[a]) > 0);
        assert(m3.count(order[b]) > 0);
    }
    assert(after.to_multiset() =~= m);
}

/// The key of the object at `index` on `axis`.
pub fn key_of(boxes: &Vec<Aabb>, index: usize, axis: Axis) -> (key: Scalar)
    requires
        index < boxes.len(),
    ensures
        key.value() == spec_key(boxes@, index, axis),
{
    boxes[index].min_on(axis)
}

/// Orders the run of `order` from `start` to `end` by the objects' keys on `axis`,
/// ascending. Nothing outside the run moves.
pub fn sort_by_min(order: &mut Vec<usize>, boxes: &Vec<Aabb>, axis: Axis, start: usize, end: usize)
    requires
        start <= end <= old(order)@.len(),
        entries_below(old(order)@, start as int, end as int, boxes@.len() as int),
    ensures
        sorted_on(final(order)@, boxes@, axis, start as int, end as int),
        range_set(final(order)@, start as int, end as int) == range_set(
            old(order)@,
            start as int,
            end as int,
        ),
        final(order)@.to_multiset() == old(order)@.to_multiset(),
        same_outside(final(order)@, old(order)@, start as int, end as int),
        entries_below(final(order)@, start as int, end as int, boxes@.len() as int),
{
    if end - start < 2 {
        return ;
    }
    let mut i: usize = start + 1;
    while i < end
        invariant
            start < i <= end <= order@.len(),
            sorted_on(order@, boxes@, axis, start as int, i as int),
            range_set(order@, start as int, end as int) == range_set(
                old(order)@,
                start as int,
                end as int,
            ),
            order@.to_multiset() == old(order)@.to_multiset(),
            same_outside(order@, old(order)@, start as int, end as int),
            entries_below(order@, start as int, end as int, boxes@.len() as int),
        decreases end - i,
    {
        let mut j: usize = i;
        let mut moving = true;
        while j > start && moving
            invariant
                start <= j <= i < end <= order@.len(),
                range_set(order@, start as int, end as int) == range_set(
                    old(order)@,
                    start as int,
                    end as int,
                ),
                order@.to_multiset() == old(order)@.to_multiset(),
                same_outside(order@, old(order)@, start as int, end as int),
                entries_below(order@, start as int, end as int, boxes@.len() as int),
                forall|a: int, b: int|
                    start <= a <= b <= i && a != j && b != j ==> spec_key(
                        boxes@,
                        #[trigger] order@[a],
                        axis,
                    ) <= spec_key(boxes@, #[trigger] order@[b], axis),
                forall|b: int|
                    j < b <= i ==> spec_key(boxes@, order@[j as int], axis) <= spec_key(
                        boxes@,
                        #[trigger] order@[b],
                        axis,
                    ),
                !moving && j > start ==> spec_key(boxes@, order@[j - 1], axis) <= spec_key(
                    boxes@,
                    order@[j as int],
                    axis,
                ),
            decreases j + (if moving { 1int } else { 0int }),
        {
            let here = order[j];
            let ahead = order[j - 1];
            if key_of(boxes, here, axis).lt(key_of(boxes, ahead, axis)) {
                proof {
                    lemma_exchange(order@, start as int, end as int, j as int, j - 1);
                }
                order.set(j, ahead);
                order.set(j - 1, here);
                j = j - 1;
            } else {
                moving = false;
            }
        }
        i = i + 1;
    }
}

impl BvhTree {
    /// Every leaf names an index below `n`.
    pub open spec fn within(self, n: int) -> bool
        decreases self,
    {
        match self {
            BvhTree::Leaf { index } => index < n,
            BvhTree::Node { left, right, .. } => left.within(n) && right.within(n),
        }
    }

    /// The box of the tree.
    pub fn bounds_of(&self, boxes: &Vec<Aabb>) -> (b: Aabb)
        requires
            self.within(boxes@.len() as int),
        ensures
            b == self.tree_box(boxes@),
    {
        match self {
            BvhTree::Leaf { index } => boxes[*index],
            BvhTree::Node { bbox, .. } => *bbox,
        }
    }
}

/// A well-formed tree names only objects that have a box.
pub proof fn lemma_well_formed_within(tree: BvhTree, boxes: Seq<Aabb>)
    requires
        tree.well_formed(boxes),
    ensures
        tree.within(boxes.len() as int),
        forall|i: usize| tree.leaves().contains(i) ==> i < boxes.len(),
    decreases tree,
{
    match tree {
        BvhTree::Leaf { index } => {
            assert(tree.leaves() == set![index]);
            assert forall|i: usize| tree.leaves().contains(i) implies i < boxes.len() by {
                assert(i == index);
            }
        },
        BvhTree::Node { left, right, .. } => {
            lemma_well_formed_within(*left, boxes);
            lemma_well_formed_within(*right, boxes);
            assert forall|i: usize| tree.leaves().contains(i) implies i < boxes.len() by {
                assert(left.leaves().contains(i) || right.leaves().contains(i));
            }
        },
    }
}

/// The box of a well-formed tree contains the box of every object under it.
pub proof fn lemma_box_contains_leaves(tree: BvhTree, boxes: Seq<Aabb>, i: usize)
    requires
        tree.well_formed(boxes),
        tree.leaves().contains(i),
    ensures
        tree.tree_box(boxes).contains(boxes[i as int]),
    decreases tree,
{
    match tree {
        BvhTree::Leaf { .. } => {},
        BvhTree::Node { left, right, .. } => {
            if left.leaves().contains(i) {
                lemma_box_contains_leaves(*left, boxes, i);
            } else {
                lemma_box_contains_leaves(*right, boxes, i);
            }
        },
    }
}

/// An axis drawn at random.
fn random_axis() -> (axis: Axis) {
    Axis::from_index(random_index(0, 3))
}

/// How the boxes `x` and `y` compare by the smallest corner on `axis`.
pub fn compare_on(x: &Aabb, y: &Aabb, axis: Axis) -> (o: Ordering)
    ensures
        o == Ordering::Less <==> x.box_min.spec_get(axis).value() < y.box_min.spec_get(
            axis,
        ).value(),
        o == Ordering::Greater <==> x.box_min.spec_get(axis).value() > y.box_min.spec_get(
            axis,
        ).value(),
        o == Ordering::Equal <==> x.box_min.spec_get(axis).value() == y.box_min.spec_get(
            axis,
        ).value(),
{
    let kx = x.min_on(axis);
    let ky = y.min_on(axis);
    if kx.lt(ky) {
        Ordering::Less
    } else if ky.lt(kx) {
        Ordering::Greater
    } else {
        Ordering::Equal
    }
}

/// The object that goes left of `first` and `second` by their keys on `axis`, as a
/// mathematical function: the one with the smaller key, and `first` where the keys are
/// equal.
pub open spec fn spec_order_pair(boxes: Seq<Aabb>, first: usize, second: usize, axis: Axis) -> (
    usize,
    usize,
) {
    if spec_key(boxes, second, axis) < spec_key(boxes, first, axis) {
        (second, first)
    } else {
        (first, second)
    }
}

/// The two objects `first` and `second` in ascending order of their keys on `axis`; two
/// with equal keys stay as they are.
pub fn order_pair(boxes: &Vec<Aabb>, first: usize, second: usize, axis: Axis) -> (pair: (usize, usize))
    requires
        first < boxes@.len(),
        second < boxes@.len(),
    ensures
        pair == spec_order_pair(boxes@, first, second, axis),
        spec_key(boxes@, pair.0, axis) <= spec_key(boxes@, pair.1, axis),
{
    match compare_on(&boxes[first], &boxes[second], axis) {
        Ordering::Greater => (second, first),
        _ => (first, second),
    }
}

/// Builds the hierarchy over the run of `order` from `start` to `end`, on an axis drawn
/// anew for every node. The run may be reordered on the way; its entries stay the same.
fn build(order: &mut Vec<usize>, boxes: &Vec<Aabb>, start: usize, end: usize) -> (tree: BvhTree)
    requires
        start < end <= old(order)@.len(),
        entries_below(old(order)@, start as int, end as int, boxes@.len() as int),
    ensures
        tree.well_formed(boxes@),
        tree.spans((end - start) as nat),
        tree.leaves() == range_set(old(order)@, start as int, end as int),
        end - start == 1 ==> tree.holds_one(old(order)@[start as int]),
        end - start == 2 ==> tree.holds_pair(
            old(order)@[start as int],
            old(order)@[start + 1],
            boxes@,
        ),
        range_set(final(order)@, start as int, end as int) == range_set(
            old(order)@,
            start as int,
            end as int,
        ),
        final(order)@.to_multiset() == old(order)@.to_multiset(),
        same_outside(final(order)@, old(order)@, start as int, end as int),
        entries_below(final(order)@, start as int, end as int, boxes@.len() as int),
    decreases end - start,
{
    let axis = random_axis();
    let object_span = end - start;
    if object_span == 1 {
        let first = order[start];
        let bbox = surrounding_box(boxes[first], boxes[first]);
        let tree = BvhTree::Node {
            axis,
            left: Box::new(BvhTree::Leaf { index: first }),
            right: Box::new(BvhTree::Leaf { index: first }),
            bbox,
        };
        proof {
            assert(range_set(order@, start as int, end as int) =~= set![first]) by {
                assert(order@[start as int] == first);
            }
            reveal_with_fuel(BvhTree::leaves, 2);
            reveal_with_fuel(BvhTree::well_formed, 2);
            reveal_with_fuel(BvhTree::spans, 2);
            assert(tree.leaves() =~= set![first]);
        }
        tree
    } else if object_span == 2 {
        let first = order[start];
        let second = order[start + 1];
        let (low, high) = order_pair(boxes, first, second, axis);
        let bbox = surrounding_box(boxes[low], boxes[high]);
        let tree = BvhTree::Node {
            axis,
            left: Box::new(BvhTree::Leaf { index: low }),
            right: Box::new(BvhTree::Leaf { index: high }),
            bbox,
        };
        proof {
            assert(range_set(order@, start as int, end as int) =~= set![first, second]) by {
                assert(order@[start as int] == first);
                assert(order@[start + 1] == second);
            }
            reveal_with_fuel(BvhTree::leaves, 2);
            reveal_with_fuel(BvhTree::well_formed, 2);
            reveal_with_fuel(BvhTree::spans, 2);
            assert(tree.leaves() =~= set![first, second]);
        }
        tree
    } else {
        sort_by_min(order, boxes, axis, start, end);
        let ghost sorted = order@;
        let mid = start + object_span / 2;
        let left = build(order, boxes, start, mid);
        let ghost halfway = order@;
        proof {
            assert(entries_below(halfway, mid as int, end as int, boxes@.len() as int)) by {
                assert forall|k: int| mid <= k < end implies #[trigger] halfway[k] < boxes@.len() by {
                    assert(halfway[k] == sorted[k]);
                }
            }
        }
        let right = build(order, boxes, mid, end);
        proof {
            lemma_well_formed_within(left, boxes@);
            lemma_well_formed_within(right, boxes@);
        }
        let bbox = surrounding_box(left.bounds_of(boxes), right.bounds_of(boxes));
        proof {
            let lo = start as int;
            let hi = end as int;
            let m = mid as int;
            lemma_range_set_split(sorted, lo, m, hi);
            lemma_range_set_agree(halfway, sorted, m, hi);
            assert(left.leaves() == range_set(sorted, lo, m));
            assert(right.leaves() == range_set(sorted, m, hi));
            assert forall|i: usize, j: usize| #[trigger]
                left.leaves().contains(i) && #[trigger] right.leaves().contains(j) implies spec_key(
                boxes@,
                i,
                axis,
            ) <= spec_key(boxes@, j, axis) by {
                let a = choose|a: int| lo <= a < m && sorted[a] == i;
                let b = choose|b: int| m <= b < hi && sorted[b] == j;
                assert(spec_key(boxes@, sorted[a], axis) <= spec_key(boxes@, sorted[b], axis));
            }
            // the final order holds the same entries in each half
            lemma_range_set_split(order@, lo, m, hi);
            lemma_range_set_agree(order@, halfway, lo, m);
            assert(range_set(order@, lo, hi) == range_set(sorted, lo, hi));
            assert(same_outside(order@, old(order)@, lo, hi)) by {
                assert forall|k: int| 0 <= k < order@.len() && !(lo <= k < hi) implies #[trigger] order@[k]
                    == old(order)@[k] by {
                    assert(order@[k] == halfway[k]);
                    assert(halfway[k] == sorted[k]);
                }
            }
            assert(entries_below(order@, lo, hi, boxes@.len() as int)) by {
                assert forall|k: int| lo <= k < hi implies #[trigger] order@[k] < boxes@.len() by {
                    if k < m {
                        assert(order@[k] == halfway[k]);
                    }
                }
            }
        }
        BvhTree::Node { axis, left: Box::new(left), right: Box::new(right), bbox }
    }
}

/// The result `rec` is the later of two results where that is a hit, else the earlier.
pub open spec fn picks(later: Option<HitRecord>, earlier: Option<HitRecord>, rec: Option<HitRecord>) -> bool {
    rec == later_or(later, earlier)
}

/// Admits `rec` as the outcome of the traversal of `tree` over `items`.
///
/// A leaf admits what its object admits. A node first puts its box to the slab test. Where
/// the test fails the outcome is a miss. Where it succeeds, the left child is asked within
/// the whole interval and the right child within the interval that ends at the left
/// child's hit, if any; the outcome is the right child's hit where there is one, else the
/// left child's.
pub open spec fn tree_may<R: Probe, T: Object<R>>(
    tree: BvhTree,
    items: Seq<T>,
    r: R,
    t_min: Scalar,
    t_max: Scalar,
    rec: Option<HitRecord>,
) -> bool
    decreases tree,
{
    match tree {
        BvhTree::Leaf { index } => items[index as int].may_hit(r, t_min, t_max, rec),
        BvhTree::Node { left, right, bbox, .. } => {
            ||| crossing_may(r, bbox, t_min, t_max, false) && rec is None
            ||| crossing_may(r, bbox, t_min, t_max, true) && exists|
                l: Option<HitRecord>,
                rr: Option<HitRecord>,
            |
                tree_may(*left, items, r, t_min, t_max, l) && tree_may(
                    *right,
                    items,
                    r,
                    t_min,
                    far_bound(l, t_max),
                    rr,
                ) && #[trigger] picks(rr, l, rec)
        },
    }
}

impl BvhTree {
    /// The closest hit of `r` among the objects under the tree, found by descending only
    /// into the boxes that the ray crosses.
    pub fn hit_among<R: Probe, T: Object<R>>(
        &self,
        objects: &Vec<T>,
        r: &R,
        t_min: Scalar,
        t_max: Scalar,
    ) -> (rec: Option<HitRecord>)
        requires
            self.within(objects@.len() as int),
        ensures
            tree_may(*self, objects@, *r, t_min, t_max, rec),
        decreases self,
    {
        match self {
            BvhTree::Leaf { index } => objects[*index].hit(r, t_min, t_max),
            BvhTree::Node { left, right, bbox, .. } => {
                if !bbox.hit(r, t_min, t_max) {
                    return None;
                }
                let left_record = left.hit_among(objects, r, t_min, t_max);
                let t = match left_record {
                    Some(record) => record.t,
                    None => t_max,
                };
                let right_record = right.hit_among(objects, r, t_min, t);
                let rec = match right_record {
                    Some(_) => right_record,
                    None => left_record,
                };
                assert(picks(right_record, left_record, rec));
                rec
            },
        }
    }
}

/// A bounding-volume hierarchy over a run of a list of objects.
pub struct BvhNode<T> {
    objects: Vec<T>,
    boxes: Vec<Aabb>,
    root: BvhTree,
}

impl<T> BvhNode<T> {
    #[verifier::type_invariant]
    spec fn holds_together(self) -> bool {
        &&& self.boxes@.len() == self.objects@.len()
        &&& self.root.well_formed(self.boxes@)
        &&& self.root is Node
    }

    /// The list of objects that the hierarchy was built on.
    pub closed spec fn items(&self) -> Seq<T> {
        self.objects@
    }

    /// The box of each object of the list, for the objects under the hierarchy.
    pub closed spec fn boxes(&self) -> Seq<Aabb> {
        self.boxes@
    }

    /// The tree of the hierarchy.
    pub closed spec fn tree(&self) -> BvhTree {
        self.root
    }

    /// The hierarchy is over the run from `start` to `end` of its list: it has the shape
    /// that the construction gives to a run of that length, it holds the tree invariant
    /// over the boxes, and the objects under it are those of the run. A run of one object
    /// is that object twice; a run of two is the two objects in ascending order of their
    /// keys, in the order of the list where the keys are equal.
    pub open spec fn covers(&self, start: int, end: int) -> bool {
        &&& 0 <= start < end <= self.items().len()
        &&& self.boxes().len() == self.items().len()
        &&& self.tree().well_formed(self.boxes())
        &&& self.tree().spans((end - start) as nat)
        &&& forall|i: usize| self.tree().leaves().contains(i) <==> start <= i < end
        &&& end - start == 1 ==> self.tree().holds_one(start as usize)
        &&& end - start == 2 ==> self.tree().holds_pair(
            start as usize,
            (start + 1) as usize,
            self.boxes(),
        )
    }

    /// How `x` and `y` compare by the smallest corner on the first axis.
    pub fn x_comparator(x: &Aabb, y: &Aabb) -> (o: Ordering)
        ensures
            o == Ordering::Less <==> x.box_min.x.value() < y.box_min.x.value(),
            o == Ordering::Greater <==> x.box_min.x.value() > y.box_min.x.value(),
            o == Ordering::Equal <==> x.box_min.x.value() == y.box_min.x.value(),
    {
        compare_on(x, y, Axis::X)
    }

    /// How `x` and `y` compare by the smallest corner on the second axis.
    pub fn y_comparator(x: &Aabb, y: &Aabb) -> (o: Ordering)
        ensures
            o == Ordering::Less <==> x.box_min.y.value() < y.box_min.y.value(),
            o == Ordering::Greater <==> x.box_min.y.value() > y.box_min.y.value(),
            o == Ordering::Equal <==> x.box_min.y.value() == y.box_min.y.value(),
    {
        compare_on(x, y, Axis::Y)
    }

    /// How `x` and `y` compare by the smallest corner on the third axis.
    pub fn z_comparator(x: &Aabb, y: &Aabb) -> (o: Ordering)
        ensures
            o == Ordering::Less <==> x.box_min.z.value() < y.box_min.z.value(),
            o == Ordering::Greater <==> x.box_min.z.value() > y.box_min.z.value(),
            o == Ordering::Equal <==> x.box_min.z.value() == y.box_min.z.value(),
    {
        compare_on(x, y, Axis::Z)
    }

    /// The hierarchy over the run of `objects` from `start` to `end`, given the box of
    /// each object: `None` where an object of the run has no box, and else the hierarchy
    /// over the run, with the boxes it was given.
    pub fn with_boxes(objects: Objects<T>, boxes: Vec<Option<Aabb>>, start: usize, end: usize) -> (node:
        Option<BvhNode<T>>)
        requires
            start < end <= objects.objects@.len(),
            boxes@.len() == objects.objects@.len(),
        ensures
            node is Some <==> forall|k: int| start <= k < end ==> #[trigger] boxes@[k] is Some,
            node matches Some(n) ==> {
                &&& n.items() == objects.objects@
                &&& n.covers(start as int, end as int)
                &&& forall|k: int| start <= k < end ==> Some(#[trigger] n.boxes()[k]) == boxes@[k]
            },
    {
        let n = boxes.len();
        let mut plain: Vec<Aabb> = Vec::new();
        let mut order: Vec<usize> = Vec::new();
        let mut k: usize = 0;
        while k < n
            invariant
                k <= n == boxes@.len(),
                start < end <= n,
                plain@.len() == k,
                order@.len() == k,
                forall|m: int| 0 <= m < k ==> #[trigger] order@[m] == m,
                forall|m: int| start <= m < end && m < k ==> Some(#[trigger] plain@[m]) == boxes@[m],
            decreases n - k,
        {
            let here = boxes[k];
            match here {
                Some(b) => {
                    plain.push(b);
                },
                None => {
                    if start <= k && k < end {
                        return None;
                    }
                    plain.push(Aabb::empty());
                },
            }
            order.push(k);
            k = k + 1;
        }
        let ghost identity = order@;
        let root = build(&mut order, &plain, start, end);
        proof {
            assert forall|m: int| start <= m < end implies #[trigger] boxes@[m] is Some by {
                assert(Some(plain@[m]) == boxes@[m]);
            }
            assert forall|i: usize| root.leaves().contains(i) <==> start <= i < end by {
                if root.leaves().contains(i) {
                    let m = choose|m: int| start <= m < end && identity[m] == i;
                    assert(identity[m] == m);
                }
                if start <= i < end {
                    assert(identity[i as int] == i);
                }
            }
        }
        Some(BvhNode { objects: objects.objects, boxes: plain, root })
    }

    /// The hierarchy over the run of `objects` from `start` to `end`, each object bounded
    /// over the exposure interval `time`: `None` where an object of the run has no box.
    pub fn new<R>(objects: Objects<T>, start: usize, end: usize, time: &TimeRange) -> (node: Option<
        BvhNode<T>,
    >) where T: Object<R>
        requires
            start < end <= objects.objects@.len(),
        ensures
            node matches Some(n) ==> {
                &&& n.items() == objects.objects@
                &&& n.covers(start as int, end as int)
                &&& forall|k: int|
                    start <= k < end ==> (#[trigger] objects.objects@[k]).may_bound(
                        *time,
                        Some(n.boxes()[k]),
                    )
            },
            node is None ==> exists|k: int|
                start <= k < end && (#[trigger] objects.objects@[k]).may_bound(*time, None),
    {
        let n = objects.objects.len();
        let mut boxes: Vec<Option<Aabb>> = Vec::new();
        let mut k: usize = 0;
        while k < n
            invariant
                k <= n == objects.objects@.len(),
                boxes@.len() == k,
                forall|m: int|
                    start <= m < end && m < k ==> (#[trigger] objects.objects@[m]).may_bound(
                        *time,
                        boxes@[m],
                    ),
            decreases n - k,
        {
            if start <= k && k < end {
                let here = objects.objects[k].bounding_box(time);
                boxes.push(here);
            } else {
                boxes.push(None);
            }
            k = k + 1;
        }
        let ghost queried = boxes@;
        let node = BvhNode::with_boxes(objects, boxes, start, end);
        proof {
            if node is None {
                let k = choose|k: int| start <= k < end && !(#[trigger] queried[k] is Some);
                assert(objects.objects@[k].may_bound(*time, queried[k]));
            }
        }
        node
    }

    /// The tree of the hierarchy.
    pub fn root(&self) -> (tree: &BvhTree)
        ensures
            *tree == self.tree(),
    {
        &self.root
    }

    /// The list of objects that the hierarchy was built on.
    pub fn objects(&self) -> (list: &Vec<T>)
        ensures
            list@ == self.items(),
    {
        &self.objects
    }

    /// The box of the whole hierarchy.
    pub fn bbox(&self) -> (b: Aabb)
        ensures
            b == self.tree().tree_box(self.boxes()),
    {
        proof {
            use_type_invariant(self);
            lemma_well_formed_within(self.root, self.boxes@);
        }
        self.root.bounds_of(&self.boxes)
    }
}

impl<R: Probe, T: Object<R>> Object<R> for BvhNode<T> {
    open spec fn may_hit(&self, r: R, t_min: Scalar, t_max: Scalar, rec: Option<HitRecord>) -> bool {
        tree_may(self.tree(), self.items(), r, t_min, t_max, rec)
    }

    fn hit(&self, r: &R, t_min: Scalar, t_max: Scalar) -> (rec: Option<HitRecord>) {
        proof {
            use_type_invariant(self);
            lemma_well_formed_within(self.root, self.boxes@);
        }
        self.root.hit_among(&self.objects, r, t_min, t_max)
    }

    /// The box of a hierarchy is the box of its root, whatever the exposure interval.
    open spec fn may_bound(&self, time: TimeRange, bbox: Option<Aabb>) -> bool {
        bbox == Some(self.tree().tree_box(self.boxes()))
    }

    fn bounding_box(&self, _time_range: &TimeRange) -> (bbox: Option<Aabb>) {
        Some(self.bbox())
    }
}

} // verus!
