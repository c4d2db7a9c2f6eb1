//! Materials: what a surface does with an incoming ray.
//!
//! A material either absorbs the ray or scatters it. A scattered ray is either specular,
//! with one outgoing ray, or diffuse, with a density from which the integrator draws the
//! outgoing direction. The outgoing rays and the densities are made by the caller, whose
//! arithmetic they are; what a material does with them is decided here.
use std::sync::Arc;
use vstd::prelude::*;
use crate::geom::{black, color, spec_black, spec_white, white, Color, Point3, Vec3};
use crate::object::HitRecord;
use crate::scalar::{Scalar, ONE_RANK};
use crate::texture::Texture;

verus! {

/// The two kinds of reflection: a single outgoing ray, or a density over directions.
#[derive(Clone)]
pub enum Reflection<R, P> {
    Specular(R),
    Scatter(P),
}

/// A scattering event: how the ray goes on, and how much of each channel survives.
pub struct Scatter<R, P> {
    pub reflection: Reflection<R, P>,
    pub attenuation: Color,
}

impl<R, P> Scatter<R, P> {
    pub fn new(reflection: Reflection<R, P>, attenuation: Color) -> (s: Self)
        ensures
            s.reflection == reflection,
            s.attenuation == attenuation,
    {
        Scatter { reflection, attenuation }
    }

    /// A specular event along `ray`.
    pub fn specular(ray: R, attenuation: Color) -> (s: Self)
        ensures
            s.reflection == Reflection::<R, P>::Specular(ray),
            s.attenuation == attenuation,
    {
        Scatter::new(Reflection::Specular(ray), attenuation)
    }

    /// A diffuse event with the density `pdf`.
    pub fn scatter(pdf: P, attenuation: Color) -> (s: Self)
        ensures
            s.reflection == Reflection::<R, P>::Scatter(pdf),
            s.attenuation == attenuation,
    {
        Scatter::new(Reflection::Scatter(pdf), attenuation)
    }
}

/// The response of a surface to rays of type `R`, with densities of type `P`.
pub trait Material<R, P>: Sized {
    /// Admits `out` as the response to `r_in` arriving at `rec`.
    open spec fn may_scatter(&self, r_in: R, rec: HitRecord, out: Option<Scatter<R, P>>) -> bool {
        true
    }

    /// The scattering event, or `None` where the ray is absorbed.
    fn scatter(&self, r_in: &R, rec: &HitRecord) -> (out: Option<Scatter<R, P>>)
        ensures
            self.may_scatter(*r_in, *rec, out),
    ;

    /// Admits `density` as the density of `scattered` under the material's own
    /// distribution.
    open spec fn may_weigh(&self, r_in: R, rec: HitRecord, scattered: R, density: Scalar) -> bool {
        true
    }

    /// The density of the direction of `scattered` under the material's own distribution.
    fn scattering_pdf(&self, r_in: &R, rec: &HitRecord, scattered: &R) -> (density: Scalar)
        ensures
            self.may_weigh(*r_in, *rec, *scattered, density),
    ;

    /// Admits `c` as the radiance emitted at the point `p` with surface coordinates
    /// `(u, v)`.
    open spec fn may_emit(&self, rec: HitRecord, u: Scalar, v: Scalar, p: Point3, c: Color) -> bool {
        true
    }

    /// The radiance that the surface emits.
    fn color_emitted(&self, rec: &HitRecord, u: Scalar, v: Scalar, p: Point3) -> (c: Color)
        ensures
            self.may_emit(*rec, u, v, p, c),
    ;
}

/// A matte surface.
pub struct Lambertian<T> {
    albedo: Arc<T>,
}

impl<T: Texture> Lambertian<T> {
    /// The texture that colours the surface.
    pub closed spec fn texture(&self) -> T {
        *self.albedo
    }

    pub fn new(t: T) -> (m: Self)
        ensures
            m.texture() == t,
    {
        Lambertian { albedo: Arc::new(t) }
    }

    /// The response of the surface at `rec`: always a diffuse event, with the density
    /// `pdf` that the caller built around the surface normal, attenuated by the texture's
    /// colour at the point that was hit.
    pub fn respond<R, P>(&self, rec: &HitRecord, pdf: P) -> (out: Option<Scatter<R, P>>)
        ensures
            out matches Some(s) && s.reflection == Reflection::<R, P>::Scatter(pdf)
                && self.texture().may_value(rec.u, rec.v, rec.p, s.attenuation),
    {
        let attenuation = self.albedo.value(rec.u, rec.v, rec.p);
        Some(Scatter::scatter(pdf, attenuation))
    }
}

impl Lambertian<Color> {
    pub fn solid_color(c: Color) -> (m: Self)
        ensures
            m.texture() == c,
    {
        Lambertian { albedo: Arc::new(c) }
    }
}

/// A matte surface of one colour, ready to be shared.
pub fn lambertian(r: Scalar, g: Scalar, b: Scalar) -> (m: Arc<Lambertian<Color>>)
    ensures
        m.texture() == (Vec3 { x: r, y: g, z: b }),
{
    Arc::new(Lambertian::solid_color(color(r, g, b)))
}

/// A matte surface with a texture, ready to be shared.
pub fn lambertian_texture<T: Texture>(texture: T) -> (m: Arc<Lambertian<T>>)
    ensures
        m.texture() == texture,
{
    Arc::new(Lambertian::new(texture))
}

/// A mirror, more or less rough.
pub struct Metal {
    albedo: Color,
    fuzz: Scalar,
}

impl Metal {
    pub closed spec fn albedo(&self) -> Color {
        self.albedo
    }

    /// The roughness: how far the reflected direction is perturbed.
    pub closed spec fn fuzz(&self) -> Scalar {
        self.fuzz
    }

    /// The roughness lies between zero and one.
    pub open spec fn well_formed(&self) -> bool {
        0 <= self.fuzz().value() <= ONE_RANK
    }

    /// A metal of the given colour; `fuzz` is held into the range from zero to one.
    pub fn new(albedo: Color, fuzz: Scalar) -> (m: Metal)
        ensures
            m.albedo() == albedo,
            m.fuzz() == fuzz.spec_max(Scalar { rank: 0 }).spec_min(Scalar { rank: ONE_RANK }),
            m.well_formed(),
            0 <= fuzz.value() <= ONE_RANK ==> m.fuzz() == fuzz,
    {
        let fuzz = fuzz.clamp(Scalar::zero(), Scalar::one());
        Metal { albedo, fuzz }
    }

    pub fn get_albedo(&self) -> (c: Color)
        ensures
            c == self.albedo(),
    {
        self.albedo
    }

    pub fn get_fuzz(&self) -> (f: Scalar)
        ensures
            f == self.fuzz(),
    {
        self.fuzz
    }

    /// The response of the surface: always a specular event along `scattered`, the
    /// perturbed mirror image of the incoming ray, attenuated by the metal's colour.
    pub fn respond<R, P>(&self, scattered: R) -> (out: Option<Scatter<R, P>>)
        ensures
            out matches Some(s) && s.reflection == Reflection::<R, P>::Specular(scattered)
                && s.attenuation == self.albedo(),
    {
        Some(Scatter::specular(scattered, self.albedo))
    }
}

/// A metal of the given colour and roughness, ready to be shared.
pub fn metal(r: Scalar, g: Scalar, b: Scalar, fuzz: Scalar) -> (m: Arc<Metal>)
    ensures
        m.albedo() == (Vec3 { x: r, y: g, z: b }),
        m.fuzz() == fuzz.spec_max(Scalar { rank: 0 }).spec_min(Scalar { rank: ONE_RANK }),
        m.well_formed(),
{
    Arc::new(Metal::new(color(r, g, b), fuzz))
}

/// A transparent material with one index of refraction.
pub struct Dielectric {
    ir: Scalar,
}

/// What a dielectric does with a ray.
#[derive(Clone, Copy, Debug, PartialEq, Eq, Structural)]
pub enum Bend {
    Reflect,
    Refract,
}

impl Dielectric {
    pub closed spec fn index_of_refraction(&self) -> Scalar {
        self.ir
    }

    pub fn new(index_of_refraction: Scalar) -> (m: Dielectric)
        ensures
            m.index_of_refraction() == index_of_refraction,
    {
        Dielectric { ir: index_of_refraction }
    }

    pub fn get_index_of_refraction(&self) -> (ir: Scalar)
        ensures
            ir == self.index_of_refraction(),
    {
        self.ir
    }

    /// The rule of the dielectric as a mathematical function: the ray is reflected under
    /// total internal reflection, and where the Fresnel reflectance exceeds the uniform
    /// sample; otherwise it is refracted.
    pub open spec fn spec_bend(cannot_refract: bool, reflectance_exceeds_sample: bool) -> Bend {
        if cannot_refract || reflectance_exceeds_sample {
            Bend::Reflect
        } else {
            Bend::Refract
        }
    }

    /// The rule of the dielectric on the quantities it is about: `eta_sine` is the ratio of
    /// the refractive indices times the sine of the angle of incidence, and no refraction
    /// is possible where it exceeds one; `reflectance` is the Fresnel reflectance and
    /// `sample` the uniform sample it is held against.
    pub open spec fn spec_bend_of(eta_sine: Scalar, reflectance: Scalar, sample: Scalar) -> Bend {
        Dielectric::spec_bend(eta_sine.value() > ONE_RANK, reflectance.value() > sample.value())
    }

    pub fn bend(cannot_refract: bool, reflectance_exceeds_sample: bool) -> (b: Bend)
        ensures
            b == Dielectric::spec_bend(cannot_refract, reflectance_exceeds_sample),
    {
        if cannot_refract || reflectance_exceeds_sample {
            Bend::Reflect
        } else {
            Bend::Refract
        }
    }

    /// Reflection or refraction, decided on the sine, the reflectance and the sample.
    pub fn bend_of(eta_sine: Scalar, reflectance: Scalar, sample: Scalar) -> (b: Bend)
        ensures
            b == Dielectric::spec_bend_of(eta_sine, reflectance, sample),
            b == Dielectric::spec_bend(
                eta_sine.value() > ONE_RANK,
                reflectance.value() > sample.value(),
            ),
    {
        Dielectric::bend(Scalar::one().lt(eta_sine), sample.lt(reflectance))
    }

    /// The response of the surface. It never absorbs: the event is always specular and
    /// white, along `reflected` or `refracted` as [`Dielectric::spec_bend_of`] says.
    pub fn respond<R, P>(
        &self,
        eta_sine: Scalar,
        reflectance: Scalar,
        sample: Scalar,
        reflected: R,
        refracted: R,
    ) -> (out: Option<Scatter<R, P>>)
        ensures
            out matches Some(s) && s.attenuation == spec_white() && s.reflection
                == Reflection::<R, P>::Specular(
                match Dielectric::spec_bend_of(eta_sine, reflectance, sample) {
                    Bend::Reflect => reflected,
                    Bend::Refract => refracted,
                },
            ),
    {
        let ray = match Dielectric::bend_of(eta_sine, reflectance, sample) {
            Bend::Reflect => reflected,
            Bend::Refract => refracted,
        };
        Some(Scatter::specular(ray, white()))
    }
}

/// A dielectric, ready to be shared.
pub fn dielectric(index_of_refraction: Scalar) -> (m: Arc<Dielectric>)
    ensures
        m.index_of_refraction() == index_of_refraction,
{
    Arc::new(Dielectric::new(index_of_refraction))
}

/// A surface that emits light from its front face and scatters nothing.
pub struct DiffuseLight<T> {
    pub color: Arc<T>,
}

impl<T: Texture> DiffuseLight<T> {
    pub fn new(c: T) -> (m: Self)
        ensures
            *m.color == c,
    {
        DiffuseLight { color: Arc::new(c) }
    }
}

impl<R, P, T: Texture> Material<R, P> for DiffuseLight<T> {
    /// A light absorbs every ray.
    open spec fn may_scatter(&self, r_in: R, rec: HitRecord, out: Option<Scatter<R, P>>) -> bool {
        out is None
    }

    fn scatter(&self, _r_in: &R, _rec: &HitRecord) -> (out: Option<Scatter<R, P>>) {
        None
    }

    /// A light scatters into no direction.
    open spec fn may_weigh(&self, r_in: R, rec: HitRecord, scattered: R, density: Scalar) -> bool {
        density.rank == 0
    }

    fn scattering_pdf(&self, _r_in: &R, _rec: &HitRecord, _scattered: &R) -> (density: Scalar) {
        Scalar::zero()
    }

    /// The front face emits the texture's colour, the back face nothing.
    open spec fn may_emit(&self, rec: HitRecord, u: Scalar, v: Scalar, p: Point3, c: Color) -> bool {
        if rec.front_face {
            (*self.color).may_value(u, v, p, c)
        } else {
            c == spec_black()
        }
    }

    fn color_emitted(&self, rec: &HitRecord, u: Scalar, v: Scalar, p: Point3) -> (c: Color) {
        if rec.front_face {
            self.color.value(u, v, p)
        } else {
            black()
        }
    }
}

/// A light of one colour, ready to be shared.
pub fn diffuse_light(r: Scalar, g: Scalar, b: Scalar) -> (m: Arc<DiffuseLight<Color>>)
    ensures
        *m.color == (Vec3 { x: r, y: g, z: b }),
{
    Arc::new(DiffuseLight::new(color(r, g, b)))
}

/// The material of a participating medium: it scatters into every direction alike.
#[derive(Clone)]
pub struct Isotropic<T> {
    albedo: T,
}

impl<T> Isotropic<T> {
    /// The texture that colours the medium.
    pub closed spec fn texture(&self) -> T {
        self.albedo
    }

    pub fn new(albedo: T) -> (m: Self)
        ensures
            m.texture() == albedo,
    {
        Isotropic { albedo }
    }
}

impl<T: Texture> Isotropic<T> {
    /// The response of the medium at `rec`: always a specular event along `scattered`, a
    /// ray in a direction drawn uniformly from the unit sphere, attenuated by the texture's
    /// colour at the point that was hit.
    pub fn respond<R, P>(&self, rec: &HitRecord, scattered: R) -> (out: Option<Scatter<R, P>>)
        ensures
            out matches Some(s) && s.reflection == Reflection::<R, P>::Specular(scattered)
                && self.texture().may_value(rec.u, rec.v, rec.p, s.attenuation),
    {
        let attenuation = self.albedo.value(rec.u, rec.v, rec.p);
        Some(Scatter::specular(scattered, attenuation))
    }
}

/// An isotropic material of one colour, ready to be shared.
pub fn isotropic(r: Scalar, g: Scalar, b: Scalar) -> (m: Arc<Isotropic<Color>>)
    ensures
        m.texture() == (Vec3 { x: r, y: g, z: b }),
{
    Arc::new(Isotropic::new(color(r, g, b)))
}

} // verus!
