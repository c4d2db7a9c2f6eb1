//! Densities over directions, from which the integrator draws the next ray.
use rand::rngs::SmallRng;
use std::sync::Arc;
use vstd::prelude::*;
use crate::geom::{Point3, Vec3};
use crate::object::{EmptyObject, Objects};
use crate::random::{choose_one, flip_coin};
use crate::scalar::Scalar;

verus! {

/// Three directions that span the space: the basis in which a sample is drawn.
#[derive(Clone, Copy, Debug, PartialEq, Eq, Structural)]
pub struct Onb {
    pub u: Vec3,
    pub v: Vec3,
    pub w: Vec3,
}

impl Onb {
    pub fn new(u: Vec3, v: Vec3, w: Vec3) -> (basis: Onb)
        ensures
            basis == (Onb { u, v, w }),
    {
        Onb { u, v, w }
    }
}

/// A probability density over directions.
pub trait Pdf: Sized {
    /// Admits `density` as the density of `direction`.
    open spec fn may_value(&self, direction: Vec3, density: Scalar) -> bool {
        true
    }

    /// The density of `direction`, with respect to solid angle.
    fn value(&self, direction: Vec3) -> (density: Scalar)
        ensures
            self.may_value(direction, density),
    ;

    /// Admits `direction` as a sample.
    open spec fn may_generate(&self, direction: Vec3) -> bool {
        true
    }

    /// A direction drawn from the density.
    fn generate(&self, rng: &mut SmallRng) -> (direction: Vec3)
        ensures
            self.may_generate(direction),
    ;
}

/// An object that can be sampled as a light: directions are drawn towards it.
pub trait Light: Sized {
    /// Admits `density` as the density with which a direction `v` is drawn from `o`.
    open spec fn may_weigh(&self, o: Point3, v: Vec3, density: Scalar) -> bool {
        true
    }

    /// The density, with respect to solid angle at `o`, with which [`Light::random`]
    /// produces the direction `v`.
    fn pdf_value(&self, o: Point3, v: Vec3) -> (density: Scalar)
        ensures
            self.may_weigh(o, v, density),
    ;

    /// Admits `direction` as a direction drawn from `o` towards the object.
    open spec fn may_aim(&self, o: Point3, direction: Vec3) -> bool {
        true
    }

    /// A direction drawn from `o` towards the object.
    fn random(&self, rng: &mut SmallRng, o: Point3) -> (direction: Vec3)
        ensures
            self.may_aim(o, direction),
    ;
}

/// Nothing is drawn towards the empty object: its density is zero everywhere and its
/// sample the zero vector.
impl Light for EmptyObject {
    open spec fn may_weigh(&self, o: Point3, v: Vec3, density: Scalar) -> bool {
        density.rank == 0
    }

    fn pdf_value(&self, _o: Point3, _v: Vec3) -> (density: Scalar) {
        Scalar::zero()
    }

    open spec fn may_aim(&self, o: Point3, direction: Vec3) -> bool {
        direction == crate::geom::spec_black()
    }

    fn random(&self, _rng: &mut SmallRng, _o: Point3) -> (direction: Vec3) {
        Vec3::splat(Scalar::zero())
    }
}

impl<T: Light> Objects<T> {
    /// A direction drawn from `o` towards one of the objects, chosen at random.
    pub fn random(&self, rng: &mut SmallRng, o: Point3) -> (direction: Vec3)
        requires
            self.objects@.len() > 0,
        ensures
            exists|i: int|
                0 <= i < self.objects@.len() && (#[trigger] self.objects@[i]).may_aim(o, direction),
    {
        match choose_one(&self.objects, rng) {
            Some(object) => object.random(rng, o),
            None => Vec3::splat(Scalar::zero()),
        }
    }
}

/// The density of the directions that leave a matte surface, weighted by the cosine of
/// their angle to the normal; `uvw` is the basis around the normal.
pub struct CosinePdf {
    pub uvw: Onb,
}

impl CosinePdf {
    pub fn new(uvw: Onb) -> (pdf: CosinePdf)
        ensures
            pdf.uvw == uvw,
    {
        CosinePdf { uvw }
    }
}

/// The density of the directions from the point `o` towards an object.
pub struct ObjectPdf<T> {
    pub object: Arc<T>,
    pub o: Point3,
}

impl<T> ObjectPdf<T> {
    pub fn new(object: Arc<T>, o: Point3) -> (pdf: Self)
        ensures
            pdf.object == object,
            pdf.o == o,
    {
        ObjectPdf { object, o }
    }
}

impl<T: Light> Pdf for ObjectPdf<T> {
    open spec fn may_value(&self, direction: Vec3, density: Scalar) -> bool {
        (*self.object).may_weigh(self.o, direction, density)
    }

    fn value(&self, direction: Vec3) -> (density: Scalar) {
        self.object.pdf_value(self.o, direction)
    }

    open spec fn may_generate(&self, direction: Vec3) -> bool {
        (*self.object).may_aim(self.o, direction)
    }

    fn generate(&self, rng: &mut SmallRng) -> (direction: Vec3) {
        self.object.random(rng, self.o)
    }
}

/// The even mixture of two densities.
pub struct MixturePdf<P0, P1> {
    pub p0: Arc<P0>,
    pub p1: Arc<P1>,
}

impl<P0: Pdf, P1: Pdf> MixturePdf<P0, P1> {
    pub fn new(p0: Arc<P0>, p1: Arc<P1>) -> (pdf: Self)
        ensures
            pdf.p0 == p0,
            pdf.p1 == p1,
    {
        MixturePdf { p0, p1 }
    }

    /// A direction drawn from the mixture: a fair coin decides which of the two densities
    /// generates it.
    pub fn generate(&self, rng: &mut SmallRng) -> (direction: Vec3)
        ensures
            (*self.p0).may_generate(direction) || (*self.p1).may_generate(direction),
    {
        let rd = flip_coin(rng);
        self.generate_from(rd, rng)
    }

    /// A direction drawn from the first density where the coin shows heads, from the
    /// second where it shows tails.
    pub fn generate_from(&self, heads: bool, rng: &mut SmallRng) -> (direction: Vec3)
        ensures
            heads ==> (*self.p0).may_generate(direction),
            !heads ==> (*self.p1).may_generate(direction),
    {
        if heads {
            self.p0.generate(rng)
        } else {
            self.p1.generate(rng)
        }
    }
}

} // verus!
