//! Axis-aligned rectangles and the cuboids made of six of them.
use vstd::prelude::*;
use crate::aabb::Aabb;
use crate::geom::{Axis, Point3, Vec3};
use crate::object::Objects;
use crate::scalar::{Scalar, ONE_RANK};

verus! {

/// A rectangle in a plane on which `axis` is constant at `k`. On the two other axes, in
/// ascending order, it reaches from `p0` to `p1` and from `q0` to `q1`.
#[derive(Clone, Copy, Debug, PartialEq, Eq, Structural)]
pub struct Rect {
    pub axis: Axis,
    pub p0: Scalar,
    pub q0: Scalar,
    pub p1: Scalar,
    pub q1: Scalar,
    pub k: Scalar,
    pub material: usize,
}

impl Rect {
    /// The bounds and the plane of the rectangle are finite numbers.
    pub open spec fn well_formed(self) -> bool {
        &&& self.p0.is_finite()
        &&& self.p1.is_finite()
        &&& self.q0.is_finite()
        &&& self.q1.is_finite()
        &&& self.k.is_finite()
    }

    /// The unit vector along the rectangle's axis.
    pub open spec fn spec_outward_normal(self) -> Vec3 {
        let zero = Scalar { rank: 0 };
        let one = Scalar { rank: ONE_RANK };
        match self.axis {
            Axis::X => Vec3 { x: one, y: zero, z: zero },
            Axis::Y => Vec3 { x: zero, y: one, z: zero },
            Axis::Z => Vec3 { x: zero, y: zero, z: one },
        }
    }

    /// A ray that meets the plane at the parameter `t`, in the point with the in-plane
    /// coordinates `x` and `y`, hits the rectangle: `t` lies in the interval and the point
    /// within the rectangle's bounds.
    pub open spec fn spec_accepts(self, t: Scalar, x: Scalar, y: Scalar, t_min: Scalar, t_max: Scalar) -> bool {
        &&& t_min.value() <= t.value() <= t_max.value()
        &&& self.p0.value() <= x.value() <= self.p1.value()
        &&& self.q0.value() <= y.value() <= self.q1.value()
    }

    /// The box of the rectangle when its plane is given the thickness from `below` to
    /// `above`.
    pub open spec fn spec_bounds_with(self, below: Scalar, above: Scalar) -> Aabb {
        let (p, q, s) = self.axis.spec_order();
        let zero = Vec3 { x: Scalar { rank: 0 }, y: Scalar { rank: 0 }, z: Scalar { rank: 0 } };
        Aabb {
            box_min: zero.spec_with(p, self.p0).spec_with(q, self.q0).spec_with(s, below),
            box_max: zero.spec_with(p, self.p1).spec_with(q, self.q1).spec_with(s, above),
        }
    }

    pub fn new(axis: Axis, p0: Scalar, q0: Scalar, p1: Scalar, q1: Scalar, k: Scalar, material: usize) -> (r:
        Rect)
        requires
            p0.is_finite(),
            q0.is_finite(),
            p1.is_finite(),
            q1.is_finite(),
            k.is_finite(),
        ensures
            r == (Rect { axis, p0, q0, p1, q1, k, material }),
            r.well_formed(),
    {
        Rect { axis, p0, q0, p1, q1, k, material }
    }

    /// The outward normal of the rectangle before any transformation.
    pub fn outward_normal(&self) -> (n: Vec3)
        ensures
            n == self.spec_outward_normal(),
    {
        let zero = Scalar::zero();
        let one = Scalar::one();
        match self.axis {
            Axis::X => Vec3::new(one, zero, zero),
            Axis::Y => Vec3::new(zero, one, zero),
            Axis::Z => Vec3::new(zero, zero, one),
        }
    }

    /// Does a ray that meets the plane at `t`, in the point `(x, y)` of the plane, hit the
    /// rectangle?
    pub fn accepts(&self, t: Scalar, x: Scalar, y: Scalar, t_min: Scalar, t_max: Scalar) -> (hit: bool)
        ensures
            hit == self.spec_accepts(t, x, y, t_min, t_max),
    {
        if t.lt(t_min) || t_max.lt(t) {
            return false;
        }
        if x.lt(self.p0) || self.p1.lt(x) || y.lt(self.q0) || self.q1.lt(y) {
            return false;
        }
        true
    }

    /// The box of the rectangle, the plane padded to reach from `below` to `above` on the
    /// rectangle's axis.
    pub fn bounds_with(&self, below: Scalar, above: Scalar) -> (bbox: Aabb)
        ensures
            bbox == self.spec_bounds_with(below, above),
            bbox.box_min.spec_get(self.axis) == below,
            bbox.box_max.spec_get(self.axis) == above,
    {
        let (p, q, s) = self.axis.order();
        let mut a = Vec3::splat(Scalar::zero());
        let mut b = Vec3::splat(Scalar::zero());
        a.set(p, self.p0);
        a.set(q, self.q0);
        a.set(s, below);
        b.set(p, self.p1);
        b.set(q, self.q1);
        b.set(s, above);
        Aabb::new(a, b)
    }
}

/// A ray parallel to the plane of a rectangle misses it. Such a ray meets the plane at no
/// finite parameter, and the point in which it would meet it has no finite coordinates: a
/// parameter that is not finite is rejected by every interval with finite bounds, and a
/// point with a coordinate that is not finite by every rectangle with finite bounds.
pub proof fn lemma_parallel_ray_misses(rect: Rect, t: Scalar, x: Scalar, y: Scalar, t_min: Scalar, t_max: Scalar)
    requires
        rect.well_formed(),
    ensures
        !t.is_finite() && t_min.is_finite() && t_max.is_finite() ==> !rect.spec_accepts(
            t,
            x,
            y,
            t_min,
            t_max,
        ),
        !x.is_finite() || !y.is_finite() ==> !rect.spec_accepts(t, x, y, t_min, t_max),
{
}

/// A box with its faces on the coordinate planes, made of six rectangles of one material.
pub struct Cuboid {
    pub box_min: Point3,
    pub box_max: Point3,
    pub sides: Objects<Rect>,
    pub material: usize,
}

/// The six faces of the cuboid from `box_min` to `box_max`: on each axis the face at the
/// largest coordinate followed by the face at the smallest, the third axis first.
pub open spec fn spec_faces(box_min: Point3, box_max: Point3, material: usize) -> Seq<Rect> {
    seq![
        Rect {
            axis: Axis::Z,
            p0: box_min.x,
            q0: box_min.y,
            p1: box_max.x,
            q1: box_max.y,
            k: box_max.z,
            material,
        },
        Rect {
            axis: Axis::Z,
            p0: box_min.x,
            q0: box_min.y,
            p1: box_max.x,
            q1: box_max.y,
            k: box_min.z,
            material,
        },
        Rect {
            axis: Axis::Y,
            p0: box_min.x,
            q0: box_min.z,
            p1: box_max.x,
            q1: box_max.z,
            k: box_max.y,
            material,
        },
        Rect {
            axis: Axis::Y,
            p0: box_min.x,
            q0: box_min.z,
            p1: box_max.x,
            q1: box_max.z,
            k: box_min.y,
            material,
        },
        Rect {
            axis: Axis::X,
            p0: box_min.y,
            q0: box_min.z,
            p1: box_max.y,
            q1: box_max.z,
            k: box_max.x,
            material,
        },
        Rect {
            axis: Axis::X,
            p0: box_min.y,
            q0: box_min.z,
            p1: box_max.y,
            q1: box_max.z,
            k: box_min.x,
            material,
        },
    ]
}

impl Cuboid {
    pub fn new(box_min: Point3, box_max: Point3, material: usize) -> (c: Cuboid)
        requires
            box_min.is_finite(),
            box_max.is_finite(),
        ensures
            forall|i: int| 0 <= i < 6 ==> (#[trigger] c.sides.objects@[i]).well_formed(),
            c.box_min == box_min,
            c.box_max == box_max,
            c.material == material,
            c.sides.objects@ == spec_faces(box_min, box_max, material),
    {
        let mut sides = Objects::new(Vec::new());
        sides.add(Rect::new(Axis::Z, box_min.x, box_min.y, box_max.x, box_max.y, box_max.z, material));
        sides.add(Rect::new(Axis::Z, box_min.x, box_min.y, box_max.x, box_max.y, box_min.z, material));
        sides.add(Rect::new(Axis::Y, box_min.x, box_min.z, box_max.x, box_max.z, box_max.y, material));
        sides.add(Rect::new(Axis::Y, box_min.x, box_min.z, box_max.x, box_max.z, box_min.y, material));
        sides.add(Rect::new(Axis::X, box_min.y, box_min.z, box_max.y, box_max.z, box_max.x, material));
        sides.add(Rect::new(Axis::X, box_min.y, box_min.z, box_max.y, box_max.z, box_min.x, material));
        assert(sides.objects@ =~= spec_faces(box_min, box_max, material));
        Cuboid { box_min, box_max, sides, material }
    }

    /// The box of a cuboid is the cuboid itself.
    pub fn bounding_box(&self) -> (bbox: Option<Aabb>)
        ensures
            bbox == Some(Aabb { box_min: self.box_min, box_max: self.box_max }),
    {
        Some(Aabb::new(self.box_min, self.box_max))
    }
}

/// Every face of a cuboid lies in the cuboid's box: whatever thickness a face is given
/// within the box, its box is contained in the box of the cuboid.
pub proof fn lemma_faces_in_box(box_min: Point3, box_max: Point3, material: usize, i: int)
    requires
        box_min.all_le(box_max),
        0 <= i < 6,
    ensures
        ({
            let face = spec_faces(box_min, box_max, material)[i];
            (Aabb { box_min, box_max }).contains(face.spec_bounds_with(face.k, face.k))
        }),
{
}

} // verus!
