//! Uniform crossover: each gene of the child comes from one of two parents.

use vstd::prelude::*;
use crate::chromosome::Chromosome;
use crate::errors::GaError;
use crate::rng::RandomSource;
use crate::fx::FX_ONE;

verus! {

/// The capability of combining two parent chromosomes into a child.
///
/// Crossing succeeds exactly where the parents have equal length; the child
/// then has that length and takes every gene from one parent or the other.
pub trait Crossover {
    fn cross(
        &self,
        rng: &mut RandomSource,
        chromosome1: &Chromosome,
        chromosome2: &Chromosome,
    ) -> (r: Result<Chromosome, GaError>)
        ensures
            match r {
                Ok(child) => {
                    &&& chromosome1@.len() == chromosome2@.len()
                    &&& child@.len() == chromosome1@.len()
                    &&& forall|i: int|
                        0 <= i < child@.len() ==> #[trigger] child@[i] == chromosome1@[i]
                            || child@[i] == chromosome2@[i]
                },
                Err(e) => {
                    &&& e == GaError::LengthMismatch
                    &&& chromosome1@.len() != chromosome2@.len()
                },
            },
    ;
}

/// Crossover that draws each gene from either parent with even odds.
pub struct UniformCrossover;

impl UniformCrossover {
    pub fn new() -> (r: UniformCrossover)
    {
        UniformCrossover
    }
}

impl Crossover for UniformCrossover {
    fn cross(
        &self,
        rng: &mut RandomSource,
        chromosome1: &Chromosome,
        chromosome2: &Chromosome,
    ) -> (r: Result<Chromosome, GaError>) {
        let n: usize = chromosome1.len();
        if n != chromosome2.len() {
            return Err(GaError::LengthMismatch);
        }
        let mut genes: Vec<i64> = Vec::new();
        let mut i: usize = 0;
        while i < n
            invariant
                0 <= i <= n,
                n == chromosome1@.len(),
                n == chromosome2@.len(),
                genes@.len() == i,
                forall|k: int|
                    0 <= k < i ==> #[trigger] genes@[k] == chromosome1@[k] || genes@[k]
                        == chromosome2@[k],
                forall|k: int| 0 <= k < i ==> crate::fx::fx_ok(#[trigger] genes@[k]),
            decreases n - i,
        {
            let take_first: bool = rng.bernoulli(FX_ONE / 2);
            let g: i64 = if take_first {
                chromosome1.get(i)
            } else {
                chromosome2.get(i)
            };
            genes.push(g);
            i = i + 1;
        }
        Ok(Chromosome::new(genes))
    }
}

} // verus!
