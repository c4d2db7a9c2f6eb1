//! Axis-aligned bounding boxes and their unions.
use vstd::prelude::*;
use crate::geom::{Axis, Point3, Vec3};
use crate::scalar::{Scalar, INFINITY_RANK, NEG_INFINITY_RANK};

verus! {

/// An axis-aligned box, given by its smallest and its largest corner.
///
/// A populated box has `box_min` no larger than `box_max` on every axis. The empty box has
/// its corners the other way round, at the two infinities, so that its union with any box
/// is that box.
#[derive(Clone, Copy, Debug, PartialEq, Eq, Structural)]
pub struct Aabb {
    pub box_min: Point3,
    pub box_max: Point3,
}

impl Aabb {
    /// Both corners are made of numbers.
    pub open spec fn is_number(self) -> bool {
        self.box_min.is_number() && self.box_max.is_number()
    }

    /// The box holds at least one point.
    pub open spec fn is_populated(self) -> bool {
        self.box_min.all_le(self.box_max)
    }

    /// `inner` lies within this box: on every axis the extent of `inner` is inside the
    /// extent of `self`.
    pub open spec fn contains(self, inner: Aabb) -> bool {
        self.box_min.all_le(inner.box_min) && inner.box_max.all_le(self.box_max)
    }

    /// The point `p` lies within this box.
    pub open spec fn contains_point(self, p: Point3) -> bool {
        self.box_min.all_le(p) && p.all_le(self.box_max)
    }

    pub open spec fn spec_empty() -> Aabb {
        Aabb {
            box_min: Vec3 {
                x: Scalar { rank: INFINITY_RANK },
                y: Scalar { rank: INFINITY_RANK },
                z: Scalar { rank: INFINITY_RANK },
            },
            box_max: Vec3 {
                x: Scalar { rank: NEG_INFINITY_RANK },
                y: Scalar { rank: NEG_INFINITY_RANK },
                z: Scalar { rank: NEG_INFINITY_RANK },
            },
        }
    }

    pub fn new(box_min: Point3, box_max: Point3) -> (b: Aabb)
        ensures
            b == (Aabb { box_min, box_max }),
    {
        Aabb { box_min, box_max }
    }

    /// The box that holds no point and is the neutral element of the union.
    pub fn empty() -> (b: Aabb)
        ensures
            b == Aabb::spec_empty(),
            !b.is_populated(),
    {
        Aabb {
            box_min: Vec3::splat(Scalar::infinity()),
            box_max: Vec3::splat(Scalar::neg_infinity()),
        }
    }

    /// The coordinate of the smallest corner on an axis: the key by which the hierarchy
    /// orders its items.
    pub fn min_on(&self, axis: Axis) -> (s: Scalar)
        ensures
            s == self.box_min.spec_get(axis),
    {
        self.box_min.get(axis)
    }
}

/// The union of two boxes as a mathematical function: the smallest box that contains both.
pub open spec fn spec_surrounding_box(box0: Aabb, box1: Aabb) -> Aabb {
    Aabb {
        box_min: box0.box_min.spec_min(box1.box_min),
        box_max: box0.box_max.spec_max(box1.box_max),
    }
}

/// The smallest box that contains both operands.
pub fn surrounding_box(box0: Aabb, box1: Aabb) -> (b: Aabb)
    ensures
        b == spec_surrounding_box(box0, box1),
        b.contains(box0),
        b.contains(box1),
{
    let small = box0.box_min.min(box1.box_min);
    let large = box0.box_max.max(box1.box_max);
    Aabb { box_min: small, box_max: large }
}

/// The union contains both operands.
pub proof fn lemma_union_contains_operands(a: Aabb, b: Aabb)
    ensures
        spec_surrounding_box(a, b).contains(a),
        spec_surrounding_box(a, b).contains(b),
{
}

/// The empty box is the neutral element of the union, on either side, for every box whose
/// corners are made of numbers.
pub proof fn lemma_union_with_empty(b: Aabb)
    requires
        b.is_number(),
    ensures
        spec_surrounding_box(b, Aabb::spec_empty()) == b,
        spec_surrounding_box(Aabb::spec_empty(), b) == b,
{
}

/// The union does not depend on the order of its operands, and joining a box with itself
/// changes nothing.
pub proof fn lemma_union_commutes(a: Aabb, b: Aabb)
    ensures
        spec_surrounding_box(a, b) == spec_surrounding_box(b, a),
        spec_surrounding_box(a, a) == a,
{
}

/// The stretch of a ray inside the slab of a box on one axis: the parameters at which the
/// ray meets the two planes of the slab, and whether the ray runs down the axis.
#[derive(Clone, Copy, Debug, PartialEq, Eq, Structural)]
pub struct Slab {
    /// Where the ray meets the plane through the smallest corner.
    pub at_min: Scalar,
    /// Where the ray meets the plane through the largest corner.
    pub at_max: Scalar,
    /// The ray runs towards smaller coordinates on this axis.
    pub descending: bool,
}

impl Slab {
    /// Where the ray enters the slab.
    pub open spec fn enter(self) -> Scalar {
        if self.descending {
            self.at_max
        } else {
            self.at_min
        }
    }

    /// Both parameters stand for numbers.
    pub open spec fn is_number(self) -> bool {
        self.at_min.is_number() && self.at_max.is_number()
    }

    /// Where the ray leaves the slab.
    pub open spec fn leave(self) -> Scalar {
        if self.descending {
            self.at_min
        } else {
            self.at_max
        }
    }
}

/// The interval from `t_min` to `t_max`, shrunk to the stretch inside `slab`.
pub open spec fn spec_narrow(slab: Slab, t_min: Scalar, t_max: Scalar) -> (Scalar, Scalar) {
    (slab.enter().spec_max(t_min), slab.leave().spec_min(t_max))
}

/// The slab test as a mathematical function: the interval is shrunk by the slab of each
/// axis in turn, and the ray misses the box as soon as nothing of the interval is left.
pub open spec fn spec_slab_test(slabs: Seq<Slab>, t_min: Scalar, t_max: Scalar) -> bool
    decreases slabs.len(),
{
    if slabs.len() == 0 {
        true
    } else {
        let (near, far) = spec_narrow(slabs[0], t_min, t_max);
        near.value() < far.value() && spec_slab_test(slabs.drop_first(), near, far)
    }
}

/// Some part of the interval from `t_min` to `t_max` lies inside all three slabs: the
/// latest entry into a slab, or the near bound where that is later, comes before the
/// earliest exit from a slab, or the far bound where that is earlier.
pub open spec fn spec_overlap(x: Slab, y: Slab, z: Slab, t_min: Scalar, t_max: Scalar) -> bool {
    let near = x.enter().spec_max(y.enter()).spec_max(z.enter()).spec_max(t_min);
    let far = x.leave().spec_min(y.leave()).spec_min(z.leave()).spec_min(t_max);
    near.value() < far.value()
}

/// The slab test on the three slabs of a box: the ray crosses the box if the parameters of
/// all three slabs are numbers and some part of the interval from `t_min` to `t_max` lies
/// inside all three. A slab with a parameter that is no number, as comes of a ray that
/// runs inside one of the box's planes, counts as a miss.
pub open spec fn spec_crosses(x: Slab, y: Slab, z: Slab, t_min: Scalar, t_max: Scalar) -> bool {
    &&& x.is_number()
    &&& y.is_number()
    &&& z.is_number()
    &&& spec_overlap(x, y, z, t_min, t_max)
}

/// Admits `crossed` as the outcome of the slab test of `bbox` against the ray `r`: the ray
/// admits three slabs for the box, and `crossed` is the slab test on them.
pub open spec fn crossing_may<R: crate::object::Probe>(
    r: R,
    bbox: Aabb,
    t_min: Scalar,
    t_max: Scalar,
    crossed: bool,
) -> bool {
    exists|x: Slab, y: Slab, z: Slab| #[trigger]
        r.may_meet(bbox, x, y, z) && crossed == spec_crosses(x, y, z, t_min, t_max)
}

impl Aabb {
    /// The slab test of this box against the ray `r`: the ray says where it meets the
    /// planes of the box, and the interval is shrunk by the slab of each axis in turn.
    pub fn hit<R: crate::object::Probe>(&self, r: &R, t_min: Scalar, t_max: Scalar) -> (crossed: bool)
        ensures
            crossing_may(*r, *self, t_min, t_max, crossed),
            exists|x: Slab, y: Slab, z: Slab| #[trigger]
                r.may_meet(*self, x, y, z) && crossed == (x.is_number() && y.is_number()
                    && z.is_number() && spec_slab_test(seq![x, y, z], t_min, t_max)) && crossed
                    == spec_crosses(x, y, z, t_min, t_max),
    {
        let (x, y, z) = r.slabs(self);
        let crossed = if slab_is_number(x) && slab_is_number(y) && slab_is_number(z) {
            slab_test(x, y, z, t_min, t_max)
        } else {
            false
        };
        assert(r.may_meet(*self, x, y, z) && crossed == spec_crosses(x, y, z, t_min, t_max));
        crossed
    }
}

/// Do both parameters of the slab stand for numbers?
pub fn slab_is_number(slab: Slab) -> (b: bool)
    ensures
        b == slab.is_number(),
{
    slab.at_min.is_a_number() && slab.at_max.is_a_number()
}

/// The slab test is an overlap test: shrinking the interval by the slab of each axis in
/// turn leaves something exactly if some part of the interval lies inside all three slabs.
pub proof fn lemma_slab_test_is_overlap(x: Slab, y: Slab, z: Slab, t_min: Scalar, t_max: Scalar)
    ensures
        spec_slab_test(seq![x, y, z], t_min, t_max) == spec_overlap(x, y, z, t_min, t_max),
{
    reveal_with_fuel(spec_slab_test, 4);
    let s = seq![x, y, z];
    assert(s.drop_first() =~= seq![y, z]);
    assert(seq![y, z].drop_first() =~= seq![z]);
    assert(seq![z].drop_first() =~= Seq::<Slab>::empty());
}

/// Shrinks the interval from `t_min` to `t_max` to the stretch inside `slab`; `None` where
/// nothing is left.
pub fn narrow(slab: Slab, t_min: Scalar, t_max: Scalar) -> (left: Option<(Scalar, Scalar)>)
    ensures
        left is Some <==> spec_narrow(slab, t_min, t_max).0.value() < spec_narrow(
            slab,
            t_min,
            t_max,
        ).1.value(),
        left matches Some(interval) ==> interval == spec_narrow(slab, t_min, t_max),
{
    let (mut t0, mut t1) = (slab.at_min, slab.at_max);
    if slab.descending {
        let swap = t0;
        t0 = t1;
        t1 = swap;
    }
    let near = if t0.rank > t_min.rank {
        t0
    } else {
        t_min
    };
    let far = if t1.rank < t_max.rank {
        t1
    } else {
        t_max
    };
    if far.rank <= near.rank {
        return None;
    }
    Some((near, far))
}

/// The slab test, given the stretch of the ray inside the slab of each of the three axes:
/// the ray crosses the box if some part of the interval lies inside all three.
pub fn slab_test(x: Slab, y: Slab, z: Slab, t_min: Scalar, t_max: Scalar) -> (crossed: bool)
    ensures
        crossed == spec_slab_test(seq![x, y, z], t_min, t_max),
        crossed <==> {
            let near = x.enter().spec_max(y.enter()).spec_max(z.enter()).spec_max(t_min);
            let far = x.leave().spec_min(y.leave()).spec_min(z.leave()).spec_min(t_max);
            near.value() < far.value()
        },
{
    proof {
        reveal_with_fuel(spec_slab_test, 4);
        let s = seq![x, y, z];
        assert(s.drop_first() =~= seq![y, z]);
        assert(seq![y, z].drop_first() =~= seq![z]);
        assert(seq![z].drop_first() =~= Seq::<Slab>::empty());
    }
    match narrow(x, t_min, t_max) {
        None => false,
        Some((near, far)) => match narrow(y, near, far) {
            None => false,
            Some((near, far)) => match narrow(z, near, far) {
                None => false,
                Some(_) => true,
            },
        },
    }
}

/// The smallest box that contains `bbox` and the point `p`.
pub open spec fn spec_grow(bbox: Aabb, p: Point3) -> Aabb {
    Aabb { box_min: bbox.box_min.spec_min(p), box_max: bbox.box_max.spec_max(p) }
}

/// The smallest box that contains all of `points`: the empty box grown by each point in
/// turn.
pub open spec fn spec_around(points: Seq<Point3>) -> Aabb
    decreases points.len(),
{
    if points.len() == 0 {
        Aabb::spec_empty()
    } else {
        spec_grow(spec_around(points.drop_last()), points.last())
    }
}

/// The box around a set of points, such as the corners of a box after a rotation: on every
/// axis it reaches from the smallest to the largest coordinate among them.
pub fn around(points: &Vec<Point3>) -> (bbox: Aabb)
    ensures
        bbox == spec_around(points@),
{
    let mut bbox = Aabb::empty();
    let mut i: usize = 0;
    while i < points.len()
        invariant
            i <= points@.len(),
            bbox == spec_around(points@.take(i as int)),
        decreases points@.len() - i,
    {
        let p = points[i];
        proof {
            assert(points@.take(i + 1).drop_last() =~= points@.take(i as int));
        }
        bbox = Aabb { box_min: bbox.box_min.min(p), box_max: bbox.box_max.max(p) };
        i = i + 1;
    }
    proof {
        assert(points@.take(points@.len() as int) =~= points@);
    }
    bbox
}

/// The box around a set of points contains every one of them.
pub proof fn lemma_around_contains(points: Seq<Point3>, i: int)
    requires
        0 <= i < points.len(),
    ensures
        spec_around(points).contains_point(points[i]),
    decreases points.len(),
{
    if i < points.len() - 1 {
        lemma_around_contains(points.drop_last(), i);
    }
}

/// The box around a set of points is the least one: every box that contains all the
/// points contains it.
pub proof fn lemma_around_is_least(points: Seq<Point3>, other: Aabb)
    requires
        points.len() > 0,
        other.is_number(),
        forall|i: int| 0 <= i < points.len() ==> other.contains_point(#[trigger] points[i]),
    ensures
        other.contains(spec_around(points)),
    decreases points.len(),
{
    let ahead = points.drop_last();
    assert(other.contains_point(points[points.len() - 1]));
    if ahead.len() > 0 {
        assert forall|i: int| 0 <= i < ahead.len() implies other.contains_point(#[trigger] ahead[i]) by {
            assert(ahead[i] == points[i]);
        }
        lemma_around_is_least(ahead, other);
    }
}

} // verus!
