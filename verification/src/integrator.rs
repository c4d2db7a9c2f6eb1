//! The decisions of the path-tracing integrator.
//!
//! A path is followed bounce by bounce. At every bounce the integrator decides how the
//! path goes on: it ends when the depth is used up, when the ray leaves the scene, and
//! when a surface absorbs it; it goes on along one ray after a specular event, and along a
//! ray drawn from a density after a diffuse event. The radiance that is summed up along
//! the path is arithmetic on colours and is done by the caller.
use vstd::prelude::*;
use crate::geom::{black, spec_black, Color};
use crate::material::{Material, Reflection, Scatter};
use crate::object::{HitRecord, Object};
use crate::scalar::{Scalar, INFINITY_RANK};

verus! {

/// Rank of one thousandth, the near bound that keeps a scattered ray from hitting the
/// surface it starts on.
pub const SHADOW_EPSILON_RANK: i32 = 0x3a83_126f;

/// What happens to a path at one bounce.
pub enum Bounce<R, P> {
    /// The depth is used up: the path contributes black.
    Exhausted,
    /// The ray hits nothing: the path contributes the background.
    Escaped,
    /// The surface absorbs the ray: the path contributes what the surface emits.
    Absorbed { rec: HitRecord },
    /// The surface sends the path on along `ray`.
    Specular { rec: HitRecord, ray: R, attenuation: Color },
    /// The surface scatters the path with the density `pdf`.
    Diffuse { rec: HitRecord, pdf: P, attenuation: Color },
}

impl<R, P> Bounce<R, P> {
    /// The radiance of a path that ends without meeting a surface, as a mathematical
    /// function: black where the depth is used up, the background where the ray leaves the
    /// scene, and nothing settled where a surface was hit.
    pub open spec fn spec_settled(self, background: Color) -> Option<Color> {
        match self {
            Bounce::Exhausted => Some(spec_black()),
            Bounce::Escaped => Some(background),
            _ => None,
        }
    }

    /// The radiance of the path where the bounce settles it without a surface: black for
    /// an exhausted path, `background` for an escaped one. A path that met a surface gets
    /// its radiance from the material, and `None` is returned.
    pub fn settled(&self, background: Color) -> (radiance: Option<Color>)
        ensures
            radiance == self.spec_settled(background),
    {
        match self {
            Bounce::Exhausted => Some(black()),
            Bounce::Escaped => Some(background),
            _ => None,
        }
    }
}

/// The bounce that follows from a hit `found` in the scene and the response `response`
/// of the material to it, with `depth` bounces left.
pub open spec fn spec_bounce<R, P>(
    depth: u32,
    found: Option<HitRecord>,
    response: Option<Scatter<R, P>>,
) -> Bounce<R, P> {
    if depth == 0 {
        Bounce::Exhausted
    } else {
        match found {
            None => Bounce::Escaped,
            Some(rec) => match response {
                None => Bounce::Absorbed { rec },
                Some(s) => match s.reflection {
                    Reflection::Specular(ray) => Bounce::Specular {
                        rec,
                        ray,
                        attenuation: s.attenuation,
                    },
                    Reflection::Scatter(pdf) => Bounce::Diffuse {
                        rec,
                        pdf,
                        attenuation: s.attenuation,
                    },
                },
            },
        }
    }
}

/// Admits `b` as the bounce of the ray `r` in `world` with `depth` bounces left: the scene
/// is asked for a hit between the shadow epsilon and infinity, the material for its
/// response to that hit, and `b` follows from the two as [`spec_bounce`] says. With no
/// depth left nothing is asked.
pub open spec fn bounce_may<R, P, W: Object<R>, M: Material<R, P>>(
    r: R,
    world: W,
    materials: M,
    depth: u32,
    b: Bounce<R, P>,
) -> bool {
    if depth == 0 {
        b == Bounce::<R, P>::Exhausted
    } else {
        exists|found: Option<HitRecord>, response: Option<Scatter<R, P>>|
            {
                &&& world.may_hit(
                    r,
                    Scalar { rank: SHADOW_EPSILON_RANK },
                    Scalar { rank: INFINITY_RANK },
                    found,
                )
                &&& found matches Some(rec) ==> materials.may_scatter(r, rec, response)
                &&& #[trigger] spec_bounce(depth, found, response) == b
            }
    }
}

/// The bounce that follows from what the scene and the material answered.
pub fn classify<R, P>(depth: u32, found: Option<HitRecord>, response: Option<Scatter<R, P>>) -> (b: Bounce<
    R,
    P,
>)
    ensures
        b == spec_bounce(depth, found, response),
{
    if depth == 0 {
        return Bounce::Exhausted;
    }
    match found {
        None => Bounce::Escaped,
        Some(rec) => match response {
            None => Bounce::Absorbed { rec },
            Some(s) => match s.reflection {
                Reflection::Specular(ray) => Bounce::Specular { rec, ray, attenuation: s.attenuation },
                Reflection::Scatter(pdf) => Bounce::Diffuse { rec, pdf, attenuation: s.attenuation },
            },
        },
    }
}

/// One bounce of the path along `r`: what the integrator does at a depth of `depth`.
///
/// `materials` answers for every surface of the scene; the record of the hit tells it
/// which one was hit.
pub fn bounce<R, P, W: Object<R>, M: Material<R, P>>(r: &R, world: &W, materials: &M, depth: u32) -> (b:
    Bounce<R, P>)
    ensures
        bounce_may(*r, *world, *materials, depth, b),
{
    if depth == 0 {
        return Bounce::Exhausted;
    }
    let found = world.hit(r, Scalar::from_rank(SHADOW_EPSILON_RANK), Scalar::infinity());
    let response = match found {
        Some(rec) => materials.scatter(r, &rec),
        None => None,
    };
    let b = classify(depth, found, response);
    assert(spec_bounce(depth, found, response) == b);
    b
}

/// From which density the next direction of a diffuse path is drawn.
#[derive(Clone, Copy, Debug, PartialEq, Eq, Structural)]
pub enum Sampling {
    /// There are no lights to aim at: the material's own density alone.
    MaterialOnly,
    /// The even mixture of the density towards the lights and the material's own.
    Mixture,
}

impl Sampling {
    /// The density to draw from in a scene with `lights` lights.
    pub fn for_lights(lights: usize) -> (s: Sampling)
        ensures
            s == if lights == 0 {
                Sampling::MaterialOnly
            } else {
                Sampling::Mixture
            },
    {
        if lights == 0 {
            Sampling::MaterialOnly
        } else {
            Sampling::Mixture
        }
    }
}

} // verus!
