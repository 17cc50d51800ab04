//! A flock of boids simulated in saturating decimal fixed-point arithmetic.
//!
//! Every quantity of the simulation is a [`Fixed`]: a signed count of
//! billionths. The rules of the flock are stated over mathematical integers
//! in [`model`]; the executable engine, [`App`], is proved to compute them,
//! and [`laws`] holds what follows for every flock. Directions are
//! compared and lengths are set exactly, on products that [`wide`] holds.

pub mod app;
pub mod boid;
pub mod config;
pub mod fixed;
pub mod laws;
pub mod lemmas;
pub mod model;
pub mod vector;
pub mod wide;

pub use app::App;
pub use boid::{Boid, Draw};
pub use config::Config;
pub use fixed::Fixed;
pub use vector::Vec2;
