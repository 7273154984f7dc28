//! A neuroevolution library: feedforward neural networks whose weights are
//! bred by a genetic algorithm, scored inside a toroidal two-dimensional
//! foraging simulation.
//!
//! Every real-valued quantity (gene, weight, position, angle, fitness) is a
//! fixed-point number: an `i64` count of 1/65536 steps. The arithmetic on
//! those numbers, and everything built from it, is specified and verified;
//! only the uniform draws of the pseudorandom source are taken on trust.

pub mod fx;
pub mod rng;
pub mod errors;

pub mod chromosome;
pub mod individual;
pub mod selection;
pub mod crossover;
pub mod mutation;
pub mod genetic_algorithm;

pub mod neuron;
pub mod layer;
pub mod mlp;

pub mod food;
pub mod eye;
pub mod animal;
pub mod world;
pub mod generation_statistics;
pub mod simulation;
