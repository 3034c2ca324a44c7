//! An offline path-tracing renderer.
//!
//! Every scalar quantity is carried in fixed-point form: an `i64` holding
//! 1/65536ths of a unit, so that the whole numeric core can be reasoned
//! about exactly.  The geometry, material, camera, integrator and image
//! assembly logic is verified; randomness is drawn from a seeded generator
//! behind a small trusted boundary.

pub mod materials;
pub mod math;
pub mod render;
pub mod rng;
pub mod text;
pub mod types;
pub mod vec3;

pub use math::FX_ONE;
