//! A path tracer: surfaces in a bounding volume hierarchy, a recursive
//! Monte Carlo estimator of the light that arrives against a ray, samplers
//! of directions, a camera, and a renderer whose image is the mean of
//! several passes.
//!
//! Numbers are carried as IEEE-754 binary64 bit patterns
//! ([`maths::Scalar`]). The library compares, orders, negates and moves
//! them itself. Every other computation on them it asks of the caller's
//! [`traits::Arithmetic`], and it assumes nothing of the answers. So a
//! contract here says what a function may return: it relates the result to
//! what the arithmetic returns when it is asked, and to what the surfaces,
//! lights, materials, textures and cameras return that the caller hands in.
//! A caller whose arithmetic and objects have contracts of their own learns
//! from these the result itself.

pub mod cameras;
pub mod data_structures;
pub mod materials;
pub mod maths;
pub mod pdfs;
pub mod renderer;
pub mod samplers;
pub mod shapes;
pub mod textures;
pub mod traits;

pub use renderer::Renderer;
