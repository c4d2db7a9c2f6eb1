//! Spheres, at rest or moving in a straight line during the exposure.
use vstd::prelude::*;
use crate::aabb::{spec_surrounding_box, surrounding_box, Aabb};
use crate::geom::Point3;
use crate::object::TimeRange;
use crate::scalar::Scalar;

verus! {

/// A sphere whose centre moves from `center0` to `center1` over `time_range`. A sphere at
/// rest has both centres in one place and an empty time range.
#[derive(Clone, Copy, Debug, PartialEq, Eq, Structural)]
pub struct Sphere {
    pub center0: Point3,
    pub center1: Point3,
    pub radius: Scalar,
    pub material: usize,
    pub time_range: TimeRange,
}

impl Sphere {
    /// The geometry is finite and the radius positive: what the construction of a sphere
    /// asks for.
    pub open spec fn well_formed(self) -> bool {
        self.radius.is_finite() && self.radius.value() > 0 && self.center0.is_finite()
            && self.center1.is_finite()
    }

    pub fn new_moving(
        center0: Point3,
        center1: Point3,
        radius: Scalar,
        material: usize,
        time_range: TimeRange,
    ) -> (s: Sphere)
        requires
            radius.is_finite(),
            radius.value() > 0,
            center0.is_finite(),
            center1.is_finite(),
        ensures
            s == (Sphere { center0, center1, radius, material, time_range }),
            s.well_formed(),
    {
        Sphere { center0, center1, radius, material, time_range }
    }

    /// A sphere at rest.
    pub fn new(center0: Point3, radius: Scalar, material: usize) -> (s: Sphere)
        requires
            radius.is_finite(),
            radius.value() > 0,
            center0.is_finite(),
        ensures
            s.well_formed(),
            s == (Sphere {
                center0,
                center1: center0,
                radius,
                material,
                time_range: TimeRange { start: Scalar { rank: 0 }, end: Scalar { rank: 0 } },
            }),
            s.time_range.spec_is_empty(),
    {
        Sphere {
            center0,
            center1: center0,
            radius,
            material,
            time_range: TimeRange { start: Scalar::zero(), end: Scalar::zero() },
        }
    }

    /// The sphere is at rest: its time range is empty, and its centre is `center0` at
    /// every instant.
    pub fn at_rest(&self) -> (still: bool)
        ensures
            still == self.time_range.spec_is_empty(),
    {
        self.time_range.is_empty()
    }

    /// The box of the sphere over an exposure, given the boxes that pad the sphere by its
    /// radius at the start and at the end: their union.
    pub fn bounding_box(box0: Aabb, box1: Aabb) -> (bbox: Option<Aabb>)
        ensures
            bbox == Some(spec_surrounding_box(box0, box1)),
    {
        Some(surrounding_box(box0, box1))
    }
}

/// Which root of the intersection equation counts, as a mathematical function: the nearer
/// one if it lies between `t_min` and `t_max`, else the farther one if that does, else
/// none.
pub open spec fn spec_choose_root(near: Scalar, far: Scalar, t_min: Scalar, t_max: Scalar) -> Option<Scalar> {
    if t_min.value() <= near.value() <= t_max.value() {
        Some(near)
    } else if t_min.value() <= far.value() <= t_max.value() {
        Some(far)
    } else {
        None
    }
}

/// The root of the intersection equation that counts as the hit.
pub fn choose_root(near: Scalar, far: Scalar, t_min: Scalar, t_max: Scalar) -> (root: Option<Scalar>)
    ensures
        root == spec_choose_root(near, far, t_min, t_max),
{
    let mut root = near;
    if root.lt(t_min) || t_max.lt(root) {
        root = far;
        if root.lt(t_min) || t_max.lt(root) {
            return None;
        }
    }
    Some(root)
}

/// A ray whose discriminant is not positive passes by the sphere: it misses it, or only
/// touches it, which counts as a miss.
pub fn passes_by(discriminant: Scalar) -> (miss: bool)
    ensures
        miss == (discriminant.value() <= 0),
{
    discriminant.le(Scalar::zero())
}

/// The chosen root lies in the interval, and where the roots are in order it is the
/// smallest root that does.
pub proof fn lemma_root_is_closest_in_range(near: Scalar, far: Scalar, t_min: Scalar, t_max: Scalar)
    requires
        near.value() <= far.value(),
    ensures
        spec_choose_root(near, far, t_min, t_max) matches Some(root) ==> {
            &&& t_min.value() <= root.value() <= t_max.value()
            &&& root == near || root == far
            &&& t_min.value() <= near.value() <= t_max.value() ==> root == near
        },
        spec_choose_root(near, far, t_min, t_max) is None ==> !(t_min.value() <= near.value()
            <= t_max.value()) && !(t_min.value() <= far.value() <= t_max.value()),
{
}

/// Tightening the far bound to a reported root reports the same root again, and a bound
/// below the root reports nothing nearer: the sphere answers as the hittable abstraction
/// asks.
pub proof fn lemma_root_stable_under_tightening(
    near: Scalar,
    far: Scalar,
    t_min: Scalar,
    t_max: Scalar,
    tighter: Scalar,
)
    requires
        near.value() <= far.value(),
        tighter.value() <= t_max.value(),
    ensures
        spec_choose_root(near, far, t_min, t_max) matches Some(root) ==> (if root.value()
            <= tighter.value() {
            spec_choose_root(near, far, t_min, tighter) == Some(root)
        } else {
            spec_choose_root(near, far, t_min, tighter) is None
        }),
        spec_choose_root(near, far, t_min, t_max) is None ==> spec_choose_root(
            near,
            far,
            t_min,
            tighter,
        ) is None,
{
}

/// A root that is no number is never the hit: between bounds that are numbers, the root
/// that counts is a number.
pub proof fn lemma_root_is_a_number(near: Scalar, far: Scalar, t_min: Scalar, t_max: Scalar)
    requires
        t_min.is_number(),
        t_max.is_number(),
    ensures
        spec_choose_root(near, far, t_min, t_max) matches Some(root) ==> root.is_number(),
        !near.is_number() && !far.is_number() ==> spec_choose_root(near, far, t_min, t_max) is None,
{
}

/// A ray that starts inside the sphere has one root behind it and one ahead: whatever the
/// near bound past the first, the root that counts is the second, it is the only root in
/// the interval, and a ray that goes on from beyond it hits nothing more.
pub proof fn lemma_ray_from_inside_hits_once(near: Scalar, far: Scalar, t_min: Scalar, t_max: Scalar)
    requires
        near.value() < t_min.value() <= far.value() <= t_max.value(),
    ensures
        spec_choose_root(near, far, t_min, t_max) == Some(far),
        !(t_min.value() <= near.value() <= t_max.value()),
        forall|beyond: Scalar|
            far.value() < beyond.value() ==> #[trigger] spec_choose_root(near, far, beyond, t_max)
                is None,
{
}

} // verus!
