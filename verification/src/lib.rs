//! Verified core of a stochastic path tracer: the scalar utilities the
//! geometry code is written against, the path integrator and the pixel
//! sampler, written once for every scene, and the row-interleaved work
//! distribution that fans a render out over a worker pool and reassembles
//! the pixels into an image buffer.

pub mod collector;
pub mod diffuse;
pub mod dispatch;
pub mod hittable;
pub mod math;
pub mod processors;
pub mod protocol;
pub mod quadratic;
pub mod render;
pub mod vec2;
