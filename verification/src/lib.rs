//! The structural core of a Monte-Carlo path tracer: bounding boxes and their unions, the
//! bounding-volume hierarchy and its traversal, the hittable wrappers, the shape of the
//! material response and the layout of the rendered image.
//!
//! Scalars are held as ranks (see [`scalar`]): the core orders and selects them, and the
//! arithmetic of intersection and shading is supplied by the caller through the traits of
//! [`object`], [`material`], [`texture`] and [`pdf`].
pub mod scalar;
pub mod geom;
pub mod aabb;
pub mod object;
pub mod texture;
pub mod material;
pub mod bvh;
pub mod closest;
pub mod random;
pub mod pdf;
pub mod scenes;
pub mod render;
pub mod integrator;
pub mod sphere;
pub mod rect;
pub mod medium;
