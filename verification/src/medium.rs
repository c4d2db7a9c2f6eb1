//! Participating media of constant density.
use vstd::prelude::*;
use crate::geom::{Color, Point3, Vec3};
use crate::material::Isotropic;
use crate::object::HitRecord;
use crate::scalar::{Scalar, ONE_RANK};

verus! {

/// A homogeneous medium that fills the inside of `boundary`.
pub struct ConstantMedium<O> {
    pub boundary: O,
    pub phase_function: Isotropic<Color>,
    /// The negated reciprocal of the density, by which the logarithm of a uniform sample
    /// becomes a free-flight distance.
    pub neg_inv_density: Scalar,
}

impl<O> ConstantMedium<O> {
    /// The medium of the colour `color` inside `boundary`.
    pub fn new(boundary: O, color: Color, neg_inv_density: Scalar) -> (m: Self)
        ensures
            m.boundary == boundary,
            m.phase_function.texture() == color,
            m.neg_inv_density == neg_inv_density,
    {
        ConstantMedium { boundary, phase_function: Isotropic::new(color), neg_inv_density }
    }
}

/// The record of a scattering event inside a medium at the parameter `t` and the point
/// `p`: the normal, the surface coordinates and the face mean nothing there and are fixed.
pub open spec fn spec_event(t: Scalar, p: Point3, material: usize) -> HitRecord {
    let zero = Scalar { rank: 0 };
    let one = Scalar { rank: ONE_RANK };
    HitRecord {
        p,
        normal: Vec3 { x: one, y: zero, z: zero },
        material,
        t,
        u: one,
        v: one,
        front_face: true,
    }
}

/// What a ray meets inside a medium: it scatters at the parameter `t`, in the point `p`, if
/// its free flight `free_flight` ends within the length `inside` of its way through the
/// medium, and else passes through.
pub fn record(free_flight: Scalar, inside: Scalar, t: Scalar, p: Point3, material: usize) -> (rec: Option<
    HitRecord,
>)
    ensures
        rec is Some <==> free_flight.value() <= inside.value(),
        rec matches Some(h) ==> h == spec_event(t, p, material),
{
    if inside.lt(free_flight) {
        return None;
    }
    let zero = Scalar::zero();
    let one = Scalar::one();
    Some(HitRecord::new(p, Vec3::new(one, zero, zero), material, t, one, one, true))
}

/// The part of a ray inside a medium, as a mathematical function. The ray enters the
/// boundary at `entry` and leaves it at `exit`; the part that counts is clipped to the
/// interval from `t_min` to `t_max`, is nothing if the clipped part is empty, and starts
/// no earlier than the origin of the ray.
pub open spec fn spec_clip_segment(entry: Scalar, exit: Scalar, t_min: Scalar, t_max: Scalar) -> Option<
    (Scalar, Scalar),
> {
    let near = entry.spec_max(t_min);
    let far = exit.spec_min(t_max);
    if near.value() >= far.value() {
        None
    } else {
        Some((near.spec_max(Scalar { rank: 0 }), far))
    }
}

/// The part of a ray inside a medium within the interval from `t_min` to `t_max`.
pub fn clip_segment(entry: Scalar, exit: Scalar, t_min: Scalar, t_max: Scalar) -> (segment: Option<
    (Scalar, Scalar),
>)
    ensures
        segment == spec_clip_segment(entry, exit, t_min, t_max),
{
    let near = entry.max(t_min);
    let far = exit.min(t_max);
    if far.le(near) {
        return None;
    }
    Some((near.max(Scalar::zero()), far))
}

/// A clipped segment lies inside the interval and inside the boundary, and is not empty
/// unless it is cut short at the origin.
pub proof fn lemma_segment_inside(entry: Scalar, exit: Scalar, t_min: Scalar, t_max: Scalar)
    ensures
        spec_clip_segment(entry, exit, t_min, t_max) matches Some(segment) ==> {
            &&& segment.1.value() <= t_max.value()
            &&& segment.1.value() <= exit.value()
            &&& t_min.value() <= segment.0.value()
            &&& entry.value() <= segment.0.value()
            &&& 0 <= segment.0.value()
            &&& 0 <= t_min.value() || 0 <= entry.value() ==> segment.0.value() < segment.1.value()
        },
        spec_clip_segment(entry, exit, t_min, t_max) is None <==> entry.spec_max(t_min).value()
            >= exit.spec_min(t_max).value(),
{
}

} // verus!
