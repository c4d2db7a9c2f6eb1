//! Axes and triples of scalars.
use vstd::prelude::*;
use crate::scalar::Scalar;

verus! {

/// One of the three coordinate axes.
#[derive(Clone, Copy, Debug, PartialEq, Eq, Structural)]
pub enum Axis {
    X,
    Y,
    Z,
}

impl Axis {
    /// The position of the axis among the coordinates: 0, 1 or 2.
    pub open spec fn index(self) -> int {
        match self {
            Axis::X => 0,
            Axis::Y => 1,
            Axis::Z => 2,
        }
    }

    /// For a plane on which this axis is constant: the two axes that span the plane, in
    /// ascending order, followed by the axis itself.
    pub open spec fn spec_order(self) -> (Axis, Axis, Axis) {
        match self {
            Axis::X => (Axis::Y, Axis::Z, Axis::X),
            Axis::Y => (Axis::X, Axis::Z, Axis::Y),
            Axis::Z => (Axis::X, Axis::Y, Axis::Z),
        }
    }

    pub fn order(self) -> (o: (Axis, Axis, Axis))
        ensures
            o == self.spec_order(),
            o.2 == self,
            o.0 != o.1 && o.0 != o.2 && o.1 != o.2,
            o.0.index() < o.1.index(),
    {
        match self {
            Axis::X => (Axis::Y, Axis::Z, Axis::X),
            Axis::Y => (Axis::X, Axis::Z, Axis::Y),
            Axis::Z => (Axis::X, Axis::Y, Axis::Z),
        }
    }

    /// The axis at a position. Positions that have no axis count as the last axis.
    pub fn from_index(i: i32) -> (a: Axis)
        ensures
            0 <= i <= 2 ==> a.index() == i,
            !(0 <= i <= 2) ==> a == Axis::Z,
    {
        if i == 0 {
            Axis::X
        } else if i == 1 {
            Axis::Y
        } else {
            Axis::Z
        }
    }
}

/// A triple of scalars: a point, a direction or a colour.
#[derive(Clone, Copy, Debug, PartialEq, Eq, Structural)]
pub struct Vec3 {
    pub x: Scalar,
    pub y: Scalar,
    pub z: Scalar,
}

pub type Point3 = Vec3;

pub type Color = Vec3;

impl Vec3 {
    pub open spec fn spec_get(self, axis: Axis) -> Scalar {
        match axis {
            Axis::X => self.x,
            Axis::Y => self.y,
            Axis::Z => self.z,
        }
    }

    pub open spec fn spec_with(self, axis: Axis, value: Scalar) -> Vec3 {
        match axis {
            Axis::X => Vec3 { x: value, y: self.y, z: self.z },
            Axis::Y => Vec3 { x: self.x, y: value, z: self.z },
            Axis::Z => Vec3 { x: self.x, y: self.y, z: value },
        }
    }

    pub open spec fn spec_min(self, other: Vec3) -> Vec3 {
        Vec3 {
            x: self.x.spec_min(other.x),
            y: self.y.spec_min(other.y),
            z: self.z.spec_min(other.z),
        }
    }

    pub open spec fn spec_max(self, other: Vec3) -> Vec3 {
        Vec3 {
            x: self.x.spec_max(other.x),
            y: self.y.spec_max(other.y),
            z: self.z.spec_max(other.z),
        }
    }

    pub open spec fn spec_neg(self) -> Vec3 {
        Vec3 { x: self.x.spec_neg(), y: self.y.spec_neg(), z: self.z.spec_neg() }
    }

    /// Every coordinate stands for a number.
    pub open spec fn is_number(self) -> bool {
        self.x.is_number() && self.y.is_number() && self.z.is_number()
    }

    /// Every coordinate stands for a finite number.
    pub open spec fn is_finite(self) -> bool {
        self.x.is_finite() && self.y.is_finite() && self.z.is_finite()
    }

    /// `self` is no larger than `other` in any coordinate.
    pub open spec fn all_le(self, other: Vec3) -> bool {
        &&& self.x.value() <= other.x.value()
        &&& self.y.value() <= other.y.value()
        &&& self.z.value() <= other.z.value()
    }

    pub fn new(x: Scalar, y: Scalar, z: Scalar) -> (v: Vec3)
        ensures
            v == (Vec3 { x, y, z }),
    {
        Vec3 { x, y, z }
    }

    /// The triple with one scalar in all three places.
    pub fn splat(s: Scalar) -> (v: Vec3)
        ensures
            v == (Vec3 { x: s, y: s, z: s }),
    {
        Vec3 { x: s, y: s, z: s }
    }

    /// The coordinate on an axis.
    pub fn get(&self, axis: Axis) -> (s: Scalar)
        ensures
            s == self.spec_get(axis),
    {
        match axis {
            Axis::X => self.x,
            Axis::Y => self.y,
            Axis::Z => self.z,
        }
    }

    /// Replaces the coordinate on an axis and leaves the other two.
    pub fn set(&mut self, axis: Axis, value: Scalar)
        ensures
            *final(self) == old(self).spec_with(axis, value),
    {
        match axis {
            Axis::X => {
                self.x = value;
            },
            Axis::Y => {
                self.y = value;
            },
            Axis::Z => {
                self.z = value;
            },
        }
    }

    /// Coordinate by coordinate, the smaller.
    pub fn min(self, other: Vec3) -> (m: Vec3)
        ensures
            m == self.spec_min(other),
    {
        Vec3 { x: self.x.min(other.x), y: self.y.min(other.y), z: self.z.min(other.z) }
    }

    /// Coordinate by coordinate, the larger.
    pub fn max(self, other: Vec3) -> (m: Vec3)
        ensures
            m == self.spec_max(other),
    {
        Vec3 { x: self.x.max(other.x), y: self.y.max(other.y), z: self.z.max(other.z) }
    }

    /// The opposite direction.
    pub fn neg(self) -> (n: Vec3)
        ensures
            n == self.spec_neg(),
    {
        Vec3 { x: self.x.neg(), y: self.y.neg(), z: self.z.neg() }
    }
}

pub fn point3(x: Scalar, y: Scalar, z: Scalar) -> (p: Point3)
    ensures
        p == (Vec3 { x, y, z }),
{
    Vec3 { x, y, z }
}

pub fn color(r: Scalar, g: Scalar, b: Scalar) -> (c: Color)
    ensures
        c == (Vec3 { x: r, y: g, z: b }),
{
    Vec3 { x: r, y: g, z: b }
}

/// The colour black.
pub fn black() -> (c: Color)
    ensures
        c == spec_black(),
{
    Vec3::splat(Scalar::zero())
}

/// The colour white.
pub fn white() -> (c: Color)
    ensures
        c == spec_white(),
{
    Vec3::splat(Scalar::one())
}

pub open spec fn spec_black() -> Color {
    Vec3 { x: Scalar { rank: 0 }, y: Scalar { rank: 0 }, z: Scalar { rank: 0 } }
}

pub open spec fn spec_white() -> Color {
    Vec3 {
        x: Scalar { rank: crate::scalar::ONE_RANK },
        y: Scalar { rank: crate::scalar::ONE_RANK },
        z: Scalar { rank: crate::scalar::ONE_RANK },
    }
}

} // verus!
