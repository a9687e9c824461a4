//! The verified core of a recursive path tracer.
//!
//! The crate holds the logic of rendering: how a scene is scanned for the
//! nearest hit, how a ray hits a sphere, what a material does to a ray, how
//! the colour of a ray is gathered over its bounces, how an image is cut into
//! units of work and put together again in whatever order the units come
//! back, and how the finished image is written out as text.
//!
//! It computes nothing with vectors, scalars or colours itself. They are type
//! parameters, and what is computed with them (a dot product, the roots of a
//! quadratic, a random direction) reaches the crate as function values,
//! bundled per task: `Geometry` for spheres, `Optics` for materials,
//! `Shading` for the bounce loop, `Sampling` for pixels, `Tone` for their
//! encoding. Scalars are compared through `PartialOrd`.
//!
//! Every contract says which results a function can give in terms of what
//! those function values and comparisons can give, so it holds for whatever
//! arithmetic the caller brings.

pub mod helpers;
pub mod hit;
pub mod image;
pub mod material;
pub mod ppm;
pub mod random;
pub mod ray;
pub mod render;
pub mod schedule;
pub mod shading;
pub mod sphere;
pub mod tone;
