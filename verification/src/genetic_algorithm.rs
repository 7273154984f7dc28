//! One generation transition: select two parents per output slot, cross
//! them, mutate the child, and materialize a fresh individual from it.

use vstd::prelude::*;
use crate::chromosome::Chromosome;
use crate::crossover::Crossover;
use crate::errors::GaError;
use crate::individual::{Individual, chromosomes_of, fits_of};
use crate::mutation::{Mutation, nudged_by};
use crate::rng::RandomSource;
use crate::selection::{MAX_POPULATION, Selection, nonneg_fitness, total_fitness};

verus! {

/// Every gene of the child comes from one of the two parent gene sequences,
/// at its own index.
pub open spec fn crossed_from(a: Seq<i64>, b: Seq<i64>, child: Seq<i64>) -> bool {
    &&& a.len() == b.len()
    &&& child.len() == a.len()
    &&& forall|g: int| 0 <= g < child.len() ==> #[trigger] child[g] == a[g] || child[g] == b[g]
}

/// The chromosome was bred the way one generation transition breeds: two
/// parents of positive fitness drawn from the gene pool, crossed gene by
/// gene, then nudged by scaled bell-range samples.
pub open spec fn bred_from(pool: Seq<Seq<i64>>, fits: Seq<int>, strength: int, c: Seq<i64>) -> bool
    recommends
        pool.len() == fits.len(),
{
    exists|i1: int, i2: int, child: Seq<i64>|
        {
            &&& 0 <= i1 < pool.len()
            &&& 0 <= i2 < pool.len()
            &&& fits[i1] > 0
            &&& fits[i2] > 0
            &&& #[trigger] crossed_from(pool[i1], pool[i2], child)
            &&& nudged_by(child, c, strength)
        }
}

/// Every individual of the population carries genes of the given length.
pub open spec fn uniform_chromosomes<I: Individual>(pop: Seq<I>, len: int) -> bool {
    forall|i: int|
        0 <= i < pop.len() ==> (#[trigger] pop[i]).has_chromosome() && pop[i].chromosome_spec().len()
            == len
}

/// The genetic algorithm engine: one selection, one crossover and one
/// mutation strategy, applied population-wide.
pub struct GeneticAlgorithm<S, C, M> where S: Selection, C: Crossover, M: Mutation {
    selection_method: S,
    crossover_method: C,
    mutation_method: M,
}

impl<S, C, M> GeneticAlgorithm<S, C, M> where S: Selection, C: Crossover, M: Mutation {
    /// The engine's mutation strategy.
    pub closed spec fn mutation_method_spec(&self) -> M {
        self.mutation_method
    }

    pub fn new(selection_method: S, crossover_method: C, mutation_method: M) -> (r:
        GeneticAlgorithm<S, C, M>)
        ensures
            r.mutation_method_spec() == mutation_method,
    {
        GeneticAlgorithm { selection_method, crossover_method, mutation_method }
    }

    /// Breed a full replacement population of the same size; an empty
    /// population breeds an empty one without invoking any strategy.
    /// Otherwise it succeeds exactly where selection can draw: every fitness
    /// non-negative and their sum positive. On a fault, nothing is drawn and
    /// the caller's population is untouched.
    pub fn evolve<I: Individual>(&self, rng: &mut RandomSource, population: &Vec<I>) -> (r: Result<
        Vec<I>,
        GaError,
    >)
        requires
            population@.len() <= MAX_POPULATION,
            uniform_chromosomes(population@, population@[0].chromosome_spec().len() as int),
        ensures
            match r {
                Ok(next) => {
                    &&& next@.len() == population@.len()
                    &&& population@.len() > 0 ==> nonneg_fitness(population@) && total_fitness(
                        population@,
                    ) > 0
                    &&& uniform_chromosomes(
                        next@,
                        population@[0].chromosome_spec().len() as int,
                    )
                    &&& forall|k: int|
                        0 <= k < next@.len() ==> bred_from(
                            chromosomes_of(population@),
                            fits_of(population@),
                            self.mutation_method_spec().strength_spec(),
                            (#[trigger] next@[k]).chromosome_spec(),
                        )
                },
                Err(e) => {
                    &&& !(nonneg_fitness(population@) && total_fitness(population@) > 0)
                    &&& (e == GaError::NegativeFitness <==> !nonneg_fitness(population@))
                    &&& (e == GaError::ZeroFitnessSum <==> nonneg_fitness(population@)
                        && total_fitness(population@) <= 0)
                },
            },
    {
        let n: usize = population.len();
        let ghost gene_len: int = population@[0].chromosome_spec().len() as int;
        let mut next: Vec<I> = Vec::new();
        let mut slot: usize = 0;
        while slot < n
            invariant
                0 <= slot <= n,
                n == population@.len(),
                n <= MAX_POPULATION,
                gene_len == population@[0].chromosome_spec().len(),
                uniform_chromosomes(population@, gene_len),
                next@.len() == slot,
                uniform_chromosomes(next@, gene_len),
                slot > 0 ==> nonneg_fitness(population@) && total_fitness(population@) > 0,
                forall|k: int|
                    0 <= k < slot ==> bred_from(
                        chromosomes_of(population@),
                        fits_of(population@),
                        self.mutation_method_spec().strength_spec(),
                        (#[trigger] next@[k]).chromosome_spec(),
                    ),
            decreases n - slot,
        {
            let parents: Vec<&I> = match self.selection_method.select(rng, population, 2) {
                Ok(sel) => sel,
                Err(e) => {
                    return Err(e);
                },
            };
            let parent1: &I = parents[0];
            let parent2: &I = parents[1];
            proof {
                assert(exists|i: int|
                    0 <= i < population@.len() && *parents@[0] == population@[i]);
                assert(exists|i: int|
                    0 <= i < population@.len() && *parents@[1] == population@[i]);
            }
            let child: Chromosome = match self.crossover_method.cross(
                rng,
                parent1.as_chromosome(),
                parent2.as_chromosome(),
            ) {
                Ok(child) => child,
                Err(_) => {
                    // both parents carry gene_len genes, so crossing cannot fault
                    proof {
                        assert(false);
                    }
                    return Err(GaError::LengthMismatch);
                },
            };
            let ghost child_genes: Seq<i64> = child@;
            let mutated: Chromosome = self.mutation_method.mutate(rng, &child);
            let ghost mutated_genes: Seq<i64> = mutated@;
            let bred: I = I::from_chromosome(mutated);
            proof {
                let i1 = choose|i: int|
                    0 <= i < population@.len() && *parents@[0] == population@[i];
                let i2 = choose|i: int|
                    0 <= i < population@.len() && *parents@[1] == population@[i];
                assert(chromosomes_of(population@)[i1] == population@[i1].chromosome_spec());
                assert(chromosomes_of(population@)[i2] == population@[i2].chromosome_spec());
                assert(fits_of(population@)[i1] == population@[i1].fitness_spec());
                assert(fits_of(population@)[i2] == population@[i2].fitness_spec());
                assert(crossed_from(
                    chromosomes_of(population@)[i1],
                    chromosomes_of(population@)[i2],
                    child_genes,
                ));
                assert(nudged_by(child_genes, mutated_genes, self.mutation_method.strength_spec()));
                assert(bred_from(
                    chromosomes_of(population@),
                    fits_of(population@),
                    self.mutation_method_spec().strength_spec(),
                    bred.chromosome_spec(),
                ));
            }
            next.push(bred);
            slot = slot + 1;
        }
        Ok(next)
    }
}

} // verus!
