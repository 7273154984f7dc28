//! Fault values: every fault of the library is a local precondition
//! violation, reported eagerly and with nothing mutated.

use vstd::prelude::*;

verus! {

/// Faults of the genetic algorithm and of the simulation built on it.
#[derive(Clone, Copy, Debug, PartialEq, Eq, Structural)]
pub enum GaError {
    /// A fitness value below zero was handed to the weighted selection.
    NegativeFitness,
    /// All fitness values were zero, so no weighted draw is possible.
    ZeroFitnessSum,
    /// Two chromosomes of different lengths were handed to crossover.
    LengthMismatch,
}

/// Faults of the neural network codec.
#[derive(Clone, Copy, Debug, PartialEq, Eq, Structural)]
pub enum NetError {
    /// The chromosome holds fewer genes than the topology consumes.
    InsufficientGenes,
}

impl GaError {
    /// A short description, for embedding applications that log faults.
    pub fn describe(&self) -> (r: &'static str)
    {
        match self {
            GaError::NegativeFitness => "negative fitness handed to selection",
            GaError::ZeroFitnessSum => "selection needs a positive fitness total",
            GaError::LengthMismatch => "crossover needs chromosomes of equal length",
        }
    }
}

impl NetError {
    /// A short description, for embedding applications that log faults.
    pub fn describe(&self) -> (r: &'static str)
    {
        match self {
            NetError::InsufficientGenes => "chromosome too short for the topology",
        }
    }
}

} // verus!
