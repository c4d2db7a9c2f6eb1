//! What a render needs to know: the scene, the lights, the camera and the parameters.
use vstd::prelude::*;
use crate::geom::Color;
use crate::scalar::Scalar;

verus! {

/// The parameters of a render.
#[derive(Clone, Copy, Debug, PartialEq, Eq, Structural)]
pub struct RenderParams {
    pub background: Color,
    pub apsect_ratio: Scalar,
    pub width: u32,
    pub height: u32,
    pub samples_per_pixel: u32,
    pub max_depth: u32,
}

impl RenderParams {
    /// The parameters of a picture `width` pixels wide and `height` pixels high.
    pub fn new(
        background: Color,
        apsect_ratio: Scalar,
        width: u32,
        height: u32,
        samples_per_pixel: u32,
        max_depth: u32,
    ) -> (params: RenderParams)
        ensures
            params == (RenderParams {
                background,
                apsect_ratio,
                width,
                height,
                samples_per_pixel,
                max_depth,
            }),
    {
        RenderParams { background, apsect_ratio, width, height, samples_per_pixel, max_depth }
    }
}

/// A scene ready to be rendered: the root of the scene, the camera, the objects that are
/// sampled as lights, and the parameters.
pub struct Environment<S, C, L> {
    pub scene: S,
    pub camera: C,
    pub lights: L,
    pub params: RenderParams,
}

impl<S, C, L> Environment<S, C, L> {
    pub fn new(scene: S, camera: C, lights: L, params: RenderParams) -> (environment: Self)
        ensures
            environment.scene == scene,
            environment.camera == camera,
            environment.lights == lights,
            environment.params == params,
    {
        Environment { scene, camera, lights, params }
    }

    /// The colour of a ray that leaves the scene.
    pub fn background(&self) -> (c: Color)
        ensures
            c == self.params.background,
    {
        self.params.background
    }

    pub fn aspect_ratio(&self) -> (a: Scalar)
        ensures
            a == self.params.apsect_ratio,
    {
        self.params.apsect_ratio
    }

    #[verifier::when_used_as_spec(spec_width)]
    pub fn width(&self) -> (w: u32)
        ensures
            w == self.params.width,
    {
        self.params.width
    }

    #[verifier::when_used_as_spec(spec_height)]
    pub fn height(&self) -> (h: u32)
        ensures
            h == self.params.height,
    {
        self.params.height
    }

    #[verifier::when_used_as_spec(spec_samples_per_pixel)]
    pub fn samples_per_pixel(&self) -> (n: u32)
        ensures
            n == self.params.samples_per_pixel,
    {
        self.params.samples_per_pixel
    }

    /// How many scattering events a path may have.
    pub fn max_depth(&self) -> (d: u32)
        ensures
            d == self.params.max_depth,
    {
        self.params.max_depth
    }

    pub open spec fn spec_width(&self) -> u32 {
        self.params.width
    }

    pub open spec fn spec_height(&self) -> u32 {
        self.params.height
    }

    pub open spec fn spec_samples_per_pixel(&self) -> u32 {
        self.params.samples_per_pixel
    }
}

} // verus!
