//! A small evolutionary life simulator, verified with Verus.
//!
//! Agents ("animals") move on the unit torus, sense nearby food through an
//! angular sensor, steer with a feed-forward neural network, and are replaced
//! each generation by a genetic algorithm acting on the flattened network
//! weights. All scalars are fixed-point integers (see [`fixed`]); the random
//! source is threaded explicitly through every operation that needs entropy.

pub mod fixed;
pub mod trig;
pub mod rng;
pub mod genetics;
pub mod network;
pub mod geometry;
pub mod food;
pub mod eye;
pub mod brain;
pub mod animal;
pub mod animal_individual;
pub mod world;
pub mod simulation;
