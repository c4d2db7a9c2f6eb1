//! Scalars of the scene, held as ranks.
//!
//! Every coordinate, distance and ray parameter that the traversal layer compares is a
//! machine number of single precision. The layer never does arithmetic on one: it orders
//! them, picks the smaller or larger, and mirrors them around zero. For that the rank of a
//! number in the ascending order of all single-precision numbers is enough, and an integer
//! rank is something the verifier reasons about exactly.
//!
//! Rank 0 is zero (both signed zeros share it), the positive numbers take the ranks
//! `1..=INFINITY_RANK` in ascending order and the negative numbers the mirrored ranks, so
//! that `a < b` holds of two numbers exactly when it holds of their ranks, and negating a
//! number negates its rank.
use vstd::prelude::*;

verus! {

/// Rank of positive infinity.
pub const INFINITY_RANK: i32 = 0x7f80_0000;

/// Rank of negative infinity.
pub const NEG_INFINITY_RANK: i32 = -0x7f80_0000;

/// Rank of the largest finite number.
pub const MAX_FINITE_RANK: i32 = 0x7f7f_ffff;

/// Rank of the number one.
pub const ONE_RANK: i32 = 0x3f80_0000;

/// One scalar of the scene.
#[derive(Clone, Copy, Debug, PartialEq, Eq, Structural)]
pub struct Scalar {
    pub rank: i32,
}

impl Scalar {
    /// The rank as a mathematical integer: the model that contracts speak of.
    pub open spec fn value(self) -> int {
        self.rank as int
    }

    /// True of the ranks that stand for a number: everything from negative to positive
    /// infinity. The ranks beyond stand for nothing.
    pub open spec fn is_number(self) -> bool {
        -INFINITY_RANK <= self.rank <= INFINITY_RANK
    }

    /// True of the ranks that stand for a finite number.
    pub open spec fn is_finite(self) -> bool {
        -MAX_FINITE_RANK <= self.rank <= MAX_FINITE_RANK
    }

    pub open spec fn spec_min(self, other: Scalar) -> Scalar {
        if other.rank < self.rank {
            other
        } else {
            self
        }
    }

    pub open spec fn spec_max(self, other: Scalar) -> Scalar {
        if other.rank > self.rank {
            other
        } else {
            self
        }
    }

    pub open spec fn spec_neg(self) -> Scalar {
        if self.rank == i32::MIN {
            Scalar { rank: i32::MAX }
        } else {
            Scalar { rank: (-self.rank) as i32 }
        }
    }

    pub fn from_rank(rank: i32) -> (s: Scalar)
        ensures
            s.rank == rank,
    {
        Scalar { rank }
    }

    pub fn zero() -> (s: Scalar)
        ensures
            s.rank == 0,
    {
        Scalar { rank: 0 }
    }

    pub fn one() -> (s: Scalar)
        ensures
            s.rank == ONE_RANK,
    {
        Scalar { rank: ONE_RANK }
    }

    pub fn infinity() -> (s: Scalar)
        ensures
            s.rank == INFINITY_RANK,
    {
        Scalar { rank: INFINITY_RANK }
    }

    pub fn neg_infinity() -> (s: Scalar)
        ensures
            s.rank == -INFINITY_RANK,
    {
        Scalar { rank: -INFINITY_RANK }
    }

    /// The largest finite number.
    pub fn max_finite() -> (s: Scalar)
        ensures
            s.rank == MAX_FINITE_RANK,
    {
        Scalar { rank: MAX_FINITE_RANK }
    }

    /// The smallest finite number.
    pub fn min_finite() -> (s: Scalar)
        ensures
            s.rank == -MAX_FINITE_RANK,
    {
        Scalar { rank: -MAX_FINITE_RANK }
    }

    /// Does the rank stand for a number?
    pub fn is_a_number(self) -> (b: bool)
        ensures
            b == self.is_number(),
    {
        NEG_INFINITY_RANK <= self.rank && self.rank <= INFINITY_RANK
    }

    pub fn lt(self, other: Scalar) -> (b: bool)
        ensures
            b == (self.value() < other.value()),
    {
        self.rank < other.rank
    }

    pub fn le(self, other: Scalar) -> (b: bool)
        ensures
            b == (self.value() <= other.value()),
    {
        self.rank <= other.rank
    }

    /// The smaller of the two; `self` where they are equal.
    pub fn min(self, other: Scalar) -> (m: Scalar)
        ensures
            m == self.spec_min(other),
    {
        if other.rank < self.rank {
            other
        } else {
            self
        }
    }

    /// The larger of the two; `self` where they are equal.
    pub fn max(self, other: Scalar) -> (m: Scalar)
        ensures
            m == self.spec_max(other),
    {
        if other.rank > self.rank {
            other
        } else {
            self
        }
    }

    /// The number mirrored around zero. The one rank that has no mirror image, which
    /// stands for no number, goes to the largest rank.
    pub fn neg(self) -> (n: Scalar)
        ensures
            n == self.spec_neg(),
            self.is_number() ==> n.is_number() && n.value() == -self.value(),
    {
        if self.rank == i32::MIN {
            Scalar { rank: i32::MAX }
        } else {
            Scalar { rank: -self.rank }
        }
    }

    /// The number held into `[low, high]`.
    pub fn clamp(self, low: Scalar, high: Scalar) -> (c: Scalar)
        requires
            low.value() <= high.value(),
        ensures
            c == self.spec_max(low).spec_min(high),
            low.value() <= c.value() <= high.value(),
            low.value() <= self.value() <= high.value() ==> c == self,
    {
        self.max(low).min(high)
    }
}

} // verus!
