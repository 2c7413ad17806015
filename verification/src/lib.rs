//! A verified particle-simulation core for a beat-driven generative visual:
//! a heart-shaped outline pulses with a synthetic heartbeat signal while a
//! swarm of particles is emitted, repels pairwise, falls under gravity,
//! bounces off a bounding rectangle, ages and dies.
//!
//! All simulation state is held in saturating fixed-point integers (see
//! [`fixed`]), and every tick is a total, verified computation.  Randomness
//! comes from an explicit, seeded [`rng::RandomSource`], so every run is
//! reproducible.

pub mod fixed;
pub mod heart;
pub mod laws;
pub mod model;
pub mod particle;
pub mod rng;
pub mod source;
pub mod system;
