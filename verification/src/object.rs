//! Hit records, the hittable abstraction and the wrappers that compose around it.
//!
//! The arithmetic of an intersection belongs to the caller: a ray type implements
//! [`Probe`], a primitive implements [`Object`]. Each trait method comes with a relation
//! that says which outcomes the implementation admits; the relation is the implementor's to
//! define (one that defines none admits every outcome), and the aggregates of this module
//! state theirs in terms of those of their parts.
use vstd::prelude::*;
use crate::aabb::{spec_surrounding_box, surrounding_box, Aabb, Slab};
use crate::geom::{Point3, Vec3};
use crate::scalar::Scalar;

verus! {

/// The exposure interval over which a bounding box has to hold.
#[derive(Clone, Copy, Debug, PartialEq, Eq, Structural)]
pub struct TimeRange {
    pub start: Scalar,
    pub end: Scalar,
}

impl TimeRange {
    /// The interval holds no instant: its start is not before its end.
    pub open spec fn spec_is_empty(self) -> bool {
        !(self.start.value() < self.end.value())
    }

    pub fn new(start: Scalar, end: Scalar) -> (range: TimeRange)
        ensures
            range == (TimeRange { start, end }),
    {
        TimeRange { start, end }
    }

    pub fn is_empty(&self) -> (empty: bool)
        ensures
            empty == self.spec_is_empty(),
    {
        !self.start.lt(self.end)
    }
}

/// What the traversal layer asks of a ray.
pub trait Probe: Sized {
    /// Admits `x`, `y` and `z` as the stretches of this ray inside the slabs of `bbox` on
    /// the three axes.
    open spec fn may_meet(&self, bbox: Aabb, x: Slab, y: Slab, z: Slab) -> bool {
        true
    }

    /// Where the ray meets the planes of `bbox`: for each axis the parameters at which it
    /// meets the plane through the smallest and the plane through the largest corner, and
    /// whether it runs down the axis.
    fn slabs(&self, bbox: &Aabb) -> (s: (Slab, Slab, Slab))
        ensures
            self.may_meet(*bbox, s.0, s.1, s.2),
    ;

    /// Admits `opposed` as the answer to whether the ray runs against `direction`.
    open spec fn may_oppose(&self, direction: Vec3, opposed: bool) -> bool {
        true
    }

    /// Does the ray run against `direction`, that is, is their inner product negative?
    fn opposes(&self, direction: &Vec3) -> (opposed: bool)
        ensures
            self.may_oppose(*direction, opposed),
    ;
}

/// The payload of an intersection.
///
/// `normal` points against the incident ray, and `front_face` records whether the outward
/// normal of the surface already did. `material` is the index of the surface's material in
/// the material table of the scene.
#[derive(Clone, Copy, Debug, PartialEq, Eq, Structural)]
pub struct HitRecord {
    pub p: Point3,
    pub normal: Vec3,
    pub material: usize,
    pub t: Scalar,
    pub u: Scalar,
    pub v: Scalar,
    pub front_face: bool,
}

impl HitRecord {
    /// The record with the other side of the surface marked as the front.
    pub open spec fn flipped(self) -> HitRecord {
        HitRecord { front_face: !self.front_face, ..self }
    }

    /// The record that [`HitRecord::with_ray`] makes when the ray's answer is `opposed`.
    pub open spec fn facing(
        opposed: bool,
        p: Point3,
        outward_normal: Vec3,
        material: usize,
        t: Scalar,
        u: Scalar,
        v: Scalar,
    ) -> HitRecord {
        HitRecord {
            p,
            normal: if opposed {
                outward_normal
            } else {
                outward_normal.spec_neg()
            },
            material,
            t,
            u,
            v,
            front_face: opposed,
        }
    }

    pub fn new(
        p: Point3,
        normal: Vec3,
        material: usize,
        t: Scalar,
        u: Scalar,
        v: Scalar,
        front_face: bool,
    ) -> (rec: HitRecord)
        ensures
            rec == (HitRecord { p, normal, material, t, u, v, front_face }),
    {
        HitRecord { p, normal, material, t, u, v, front_face }
    }

    /// The record of a hit whose surface has `outward_normal`: the front face is hit when
    /// the ray runs against that normal, and the stored normal is turned against the ray.
    pub fn with_ray<R: Probe>(
        r: &R,
        p: Point3,
        outward_normal: Vec3,
        material: usize,
        t: Scalar,
        u: Scalar,
        v: Scalar,
    ) -> (rec: HitRecord)
        ensures
            r.may_oppose(outward_normal, rec.front_face),
            rec == HitRecord::facing(rec.front_face, p, outward_normal, material, t, u, v),
    {
        let front_face = r.opposes(&outward_normal);
        HitRecord::oriented(front_face, p, outward_normal, material, t, u, v)
    }

    /// The record of a hit, given the ray's answer to whether it runs against
    /// `outward_normal`.
    pub fn oriented(
        opposed: bool,
        p: Point3,
        outward_normal: Vec3,
        material: usize,
        t: Scalar,
        u: Scalar,
        v: Scalar,
    ) -> (rec: HitRecord)
        ensures
            rec == HitRecord::facing(opposed, p, outward_normal, material, t, u, v),
    {
        let normal = if opposed {
            outward_normal
        } else {
            outward_normal.neg()
        };
        HitRecord { p, normal, material, t, u, v, front_face: opposed }
    }

    /// Sets `front_face` and `normal` from the outward normal of the surface and the ray,
    /// and leaves the rest of the record.
    pub fn set_face_normal<R: Probe>(&mut self, r: &R, outward_normal: Vec3)
        ensures
            r.may_oppose(outward_normal, final(self).front_face),
            *final(self) == HitRecord::facing(
                final(self).front_face,
                old(self).p,
                outward_normal,
                old(self).material,
                old(self).t,
                old(self).u,
                old(self).v,
            ),
    {
        self.front_face = r.opposes(&outward_normal);
        self.normal = if self.front_face {
            outward_normal
        } else {
            outward_normal.neg()
        };
    }
}

/// The far bound for the next query once `found` is in hand: the parameter of the hit, or
/// `t_max` where nothing was hit.
pub open spec fn far_bound(found: Option<HitRecord>, t_max: Scalar) -> Scalar {
    match found {
        Some(rec) => rec.t,
        None => t_max,
    }
}

/// The later result where there is one, else the earlier.
pub open spec fn later_or(later: Option<HitRecord>, earlier: Option<HitRecord>) -> Option<
    HitRecord,
> {
    match later {
        Some(_) => later,
        None => earlier,
    }
}

/// A result with the front face of its record, if any, flipped.
pub open spec fn flip(rec: Option<HitRecord>) -> Option<HitRecord> {
    match rec {
        Some(h) => Some(h.flipped()),
        None => None,
    }
}

/// The union of two optional boxes: there is none as soon as one operand has none.
pub open spec fn join_bounds(acc: Option<Aabb>, next: Option<Aabb>) -> Option<Aabb> {
    match (acc, next) {
        (Some(a), Some(b)) => Some(spec_surrounding_box(a, b)),
        _ => None,
    }
}

/// Anything a ray of type `R` can intersect.
pub trait Object<R>: Sized {
    /// Admits `rec` as the outcome of intersecting `r` within `t_min` and `t_max`.
    open spec fn may_hit(&self, r: R, t_min: Scalar, t_max: Scalar, rec: Option<HitRecord>) -> bool {
        true
    }

    /// The closest intersection of `r` with a parameter between `t_min` and `t_max`, or
    /// `None` for a miss.
    fn hit(&self, r: &R, t_min: Scalar, t_max: Scalar) -> (rec: Option<HitRecord>)
        ensures
            self.may_hit(*r, t_min, t_max, rec),
    ;

    /// Admits `bbox` as the bounding box over the exposure interval `time`.
    open spec fn may_bound(&self, time: TimeRange, bbox: Option<Aabb>) -> bool {
        true
    }

    /// A box that covers the object over the exposure interval, or `None` where no box
    /// does.
    fn bounding_box(&self, time: &TimeRange) -> (bbox: Option<Aabb>)
        ensures
            self.may_bound(*time, bbox),
    ;
}

/// The object that no ray hits and no box bounds.
#[derive(Clone, Copy, Debug, PartialEq, Eq, Structural)]
pub struct EmptyObject {}

impl<R> Object<R> for EmptyObject {
    open spec fn may_hit(&self, r: R, t_min: Scalar, t_max: Scalar, rec: Option<HitRecord>) -> bool {
        rec is None
    }

    fn hit(&self, _r: &R, _t_min: Scalar, _t_max: Scalar) -> (rec: Option<HitRecord>) {
        None
    }

    open spec fn may_bound(&self, time: TimeRange, bbox: Option<Aabb>) -> bool {
        bbox is None
    }

    fn bounding_box(&self, _time: &TimeRange) -> (bbox: Option<Aabb>) {
        None
    }
}

/// An object seen from the other side: every hit reports the opposite face.
#[derive(Clone)]
pub struct FlipFace<T> {
    pub object: T,
}

impl<T> FlipFace<T> {
    pub fn new(object: T) -> (f: FlipFace<T>)
        ensures
            f.object == object,
    {
        FlipFace { object }
    }
}

impl<R, T: Object<R>> Object<R> for FlipFace<T> {
    /// The outcomes are those of the wrapped object with the face flipped.
    open spec fn may_hit(&self, r: R, t_min: Scalar, t_max: Scalar, rec: Option<HitRecord>) -> bool {
        self.object.may_hit(r, t_min, t_max, flip(rec))
    }

    fn hit(&self, r: &R, t_min: Scalar, t_max: Scalar) -> (rec: Option<HitRecord>) {
        match self.object.hit(r, t_min, t_max) {
            Some(inner) => {
                let mut rec = inner;
                rec.front_face = !rec.front_face;
                assert(rec.flipped() == inner);
                Some(rec)
            },
            None => None,
        }
    }

    open spec fn may_bound(&self, time: TimeRange, bbox: Option<Aabb>) -> bool {
        self.object.may_bound(time, bbox)
    }

    fn bounding_box(&self, time: &TimeRange) -> (bbox: Option<Aabb>) {
        self.object.bounding_box(time)
    }
}

/// Flipping a result twice gives it back.
pub proof fn lemma_flip_involutive(rec: Option<HitRecord>)
    ensures
        flip(flip(rec)) == rec,
{
}

/// Flipping changes nothing but the face: position, normal, material, parameter and
/// surface coordinates of a hit stay, and a miss stays a miss.
pub proof fn lemma_flip_keeps_rest(rec: Option<HitRecord>)
    ensures
        flip(rec) is Some <==> rec is Some,
        rec matches Some(h) ==> {
            let f = flip(rec).unwrap();
            &&& f.front_face == !h.front_face
            &&& f.p == h.p
            &&& f.normal == h.normal
            &&& f.material == h.material
            &&& f.t == h.t
            &&& f.u == h.u
            &&& f.v == h.v
        },
{
}

/// Two flips cancel: an object wrapped twice admits exactly the outcomes of the object
/// itself, for hits and for bounding boxes.
pub proof fn lemma_flip_face_twice<R, T: Object<R>>(
    object: T,
    r: R,
    t_min: Scalar,
    t_max: Scalar,
    rec: Option<HitRecord>,
    time: TimeRange,
    bbox: Option<Aabb>,
)
    ensures
        (FlipFace { object: FlipFace { object } }).may_hit(r, t_min, t_max, rec)
            <==> object.may_hit(r, t_min, t_max, rec),
        (FlipFace { object: FlipFace { object } }).may_bound(time, bbox) <==> object.may_bound(
            time,
            bbox,
        ),
{
    lemma_flip_involutive(rec);
}

/// A list of objects, itself an object: a ray hits what is closest among them.
pub struct Objects<T> {
    pub objects: Vec<T>,
}

impl<T> Objects<T> {
    pub fn new(objects: Vec<T>) -> (list: Self)
        ensures
            list.objects == objects,
    {
        Objects { objects }
    }

    pub fn clear(&mut self)
        ensures
            final(self).objects@.len() == 0,
    {
        self.objects.clear()
    }

    /// Appends `object` and leaves the objects before it in place.
    pub fn add(&mut self, object: T)
        ensures
            final(self).objects@ == old(self).objects@.push(object),
    {
        self.objects.push(object);
    }

    pub fn len(&self) -> (n: usize)
        ensures
            n == self.objects@.len(),
    {
        self.objects.len()
    }
}

/// The `n`-th step of the sweep: with `before` in hand from the objects ahead of it, the
/// `n`-th object admits `here` for the interval that ends at the closest hit so far, and
/// `rec` is `here` where that is a hit and `before` where it is not.
pub open spec fn sweep_step<R, T: Object<R>>(
    items: Seq<T>,
    n: int,
    r: R,
    t_min: Scalar,
    t_max: Scalar,
    before: Option<HitRecord>,
    here: Option<HitRecord>,
    rec: Option<HitRecord>,
) -> bool {
    &&& items[n - 1].may_hit(r, t_min, far_bound(before, t_max), here)
    &&& rec == later_or(here, before)
}

/// The `n`-th step of the union: the `n`-th object admits the box `here`, and `bbox` is
/// its union with the box `before` of the objects ahead of it.
pub open spec fn bound_step<R, T: Object<R>>(
    items: Seq<T>,
    n: int,
    time: TimeRange,
    before: Option<Aabb>,
    here: Option<Aabb>,
    bbox: Option<Aabb>,
) -> bool {
    &&& items[n - 1].may_bound(time, here)
    &&& bbox == join_bounds(before, here)
}

/// Admits `rec` as the outcome of the sweep over the first `n` of `items`: each object in
/// turn is asked for a hit no farther than the closest so far, and a hit that it reports
/// replaces the closest so far.
pub open spec fn sweep_may<R, T: Object<R>>(
    items: Seq<T>,
    n: int,
    r: R,
    t_min: Scalar,
    t_max: Scalar,
    rec: Option<HitRecord>,
) -> bool
    decreases n,
{
    if n <= 0 {
        rec is None
    } else {
        exists|before: Option<HitRecord>, here: Option<HitRecord>|
            sweep_may(items, n - 1, r, t_min, t_max, before) && #[trigger] sweep_step(
                items,
                n,
                r,
                t_min,
                t_max,
                before,
                here,
                rec,
            )
    }
}

/// Admits `bbox` as the union of the boxes of the first `n` of `items`: the empty box
/// joined with the box of each object in turn, and no box as soon as one object has none.
pub open spec fn bound_may<R, T: Object<R>>(
    items: Seq<T>,
    n: int,
    time: TimeRange,
    bbox: Option<Aabb>,
) -> bool
    decreases n,
{
    if n <= 0 {
        bbox == Some(Aabb::spec_empty())
    } else {
        exists|before: Option<Aabb>, here: Option<Aabb>|
            bound_may::<R, T>(items, n - 1, time, before) && #[trigger] bound_step::<R, T>(
                items,
                n,
                time,
                before,
                here,
                bbox,
            )
    }
}

/// One step of the sweep: an outcome of the first `n - 1` objects and an outcome of the
/// `n`-th make an outcome of the first `n`.
pub proof fn lemma_sweep_step<R, T: Object<R>>(
    items: Seq<T>,
    n: int,
    r: R,
    t_min: Scalar,
    t_max: Scalar,
    before: Option<HitRecord>,
    here: Option<HitRecord>,
)
    requires
        n > 0,
        sweep_may(items, n - 1, r, t_min, t_max, before),
        items[n - 1].may_hit(r, t_min, far_bound(before, t_max), here),
    ensures
        sweep_may(items, n, r, t_min, t_max, later_or(here, before)),
{
    assert(sweep_step(items, n, r, t_min, t_max, before, here, later_or(here, before)));
}

/// One step of the union: a box of the first `n - 1` objects and a box of the `n`-th make
/// a box of the first `n`.
pub proof fn lemma_bound_step<R, T: Object<R>>(
    items: Seq<T>,
    n: int,
    time: TimeRange,
    before: Option<Aabb>,
    here: Option<Aabb>,
)
    requires
        n > 0,
        bound_may::<R, T>(items, n - 1, time, before),
        items[n - 1].may_bound(time, here),
    ensures
        bound_may::<R, T>(items, n, time, join_bounds(before, here)),
{
    assert(bound_step::<R, T>(items, n, time, before, here, join_bounds(before, here)));
}

impl<R, T: Object<R>> Object<R> for Objects<T> {
    open spec fn may_hit(&self, r: R, t_min: Scalar, t_max: Scalar, rec: Option<HitRecord>) -> bool {
        sweep_may(self.objects@, self.objects@.len() as int, r, t_min, t_max, rec)
    }

    fn hit(&self, r: &R, t_min: Scalar, t_max: Scalar) -> (rec: Option<HitRecord>) {
        let mut rec: Option<HitRecord> = None;
        let mut closest_so_far = t_max;
        let mut i: usize = 0;
        while i < self.objects.len()
            invariant
                i <= self.objects@.len(),
                sweep_may(self.objects@, i as int, *r, t_min, t_max, rec),
                closest_so_far == far_bound(rec, t_max),
            decreases self.objects@.len() - i,
        {
            let before = rec;
            let here = self.objects[i].hit(r, t_min, closest_so_far);
            if let Some(new_rec) = here {
                closest_so_far = new_rec.t;
                rec = Some(new_rec);
            }
            i = i + 1;
            proof {
                lemma_sweep_step(self.objects@, i as int, *r, t_min, t_max, before, here);
            }
        }
        rec
    }

    open spec fn may_bound(&self, time: TimeRange, bbox: Option<Aabb>) -> bool {
        bound_may::<R, T>(self.objects@, self.objects@.len() as int, time, bbox)
    }

    fn bounding_box(&self, time: &TimeRange) -> (bbox: Option<Aabb>) {
        let mut acc: Option<Aabb> = Some(Aabb::empty());
        let mut i: usize = 0;
        while i < self.objects.len()
            invariant
                i <= self.objects@.len(),
                bound_may::<R, T>(self.objects@, i as int, *time, acc),
            decreases self.objects@.len() - i,
        {
            let before = acc;
            let here = self.objects[i].bounding_box(time);
            acc =
            match (acc, here) {
                (Some(a), Some(b)) => Some(surrounding_box(a, b)),
                _ => None,
            };
            i = i + 1;
            proof {
                lemma_bound_step::<R, T>(self.objects@, i as int, *time, before, here);
            }
        }
        acc
    }
}

/// The box of a list contains the box of each of its objects: whenever the union over the
/// first `n` objects is a box, every one of them admitted a box, and that box lies within
/// the union.
pub proof fn lemma_bound_contains_each<R, T: Object<R>>(
    items: Seq<T>,
    n: int,
    time: TimeRange,
    bbox: Aabb,
    i: int,
)
    requires
        0 <= i < n <= items.len(),
        bound_may::<R, T>(items, n, time, Some(bbox)),
    ensures
        exists|part: Aabb| #[trigger] items[i].may_bound(time, Some(part)) && bbox.contains(part),
    decreases n,
{
    let (before, here) = choose|before: Option<Aabb>, here: Option<Aabb>|
        bound_may::<R, T>(items, n - 1, time, before) && #[trigger] bound_step::<R, T>(
            items,
            n,
            time,
            before,
            here,
            Some(bbox),
        );
    let ahead = before.unwrap();
    let last = here.unwrap();
    if i == n - 1 {
        assert(items[i].may_bound(time, Some(last)) && bbox.contains(last));
    } else {
        lemma_bound_contains_each::<R, T>(items, n - 1, time, ahead, i);
        let part = choose|part: Aabb| #[trigger]
            items[i].may_bound(time, Some(part)) && ahead.contains(part);
        assert(items[i].may_bound(time, Some(part)) && bbox.contains(part));
    }
}

} // verus!
