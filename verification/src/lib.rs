//! A fixed-point Monte Carlo ray-tracing kernel.
//!
//! Scalars are signed 64-bit fixed-point numbers with a scale of 2^16
//! (see [`fixed`]); every geometric and shading computation is specified
//! exactly over mathematical integers and verified against that
//! specification.  Randomness enters only through a single trusted
//! wrapper around the `rand` crate.
//!
//! The kernel is layered leaf-first: [`vec3`] holds the vector
//! algebra, [`point3`] and [`color`] its position and radiance
//! wrappers, [`ray`] the parametric ray, [`sphere`] the one primitive
//! and its intersection test, [`hittable_list`] the nearest-hit scan
//! over a scene, [`material`] the three scattering models, [`camera`]
//! the sampling geometry, and [`render`] the recursive radiance
//! estimator and the per-pixel loop.

pub mod camera;
pub mod color;
pub mod fixed;
pub mod hit;
pub mod hittable_list;
pub mod material;
pub mod point3;
pub mod progress_bar;
pub mod ray;
pub mod render;
pub mod sphere;
mod rng;
pub mod vec3;
