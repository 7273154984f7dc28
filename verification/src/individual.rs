//! The genetic algorithm's unit of selection: a chromosome paired with a
//! fitness score.

use vstd::prelude::*;
use crate::chromosome::{Chromosome, genes_ok};
use crate::fx::{FX_MAX, clip, fx_add, fx_ok};

verus! {

/// What a population member must offer the genetic algorithm: a chromosome
/// to breed from and a fitness score to select by.
pub trait Individual: Sized {
    /// The genes this individual breeds from; meaningful only where
    /// `has_chromosome` holds.
    spec fn chromosome_spec(&self) -> Seq<i64>;

    /// The fitness score, within the representable magnitude.
    spec fn fitness_spec(&self) -> int;

    /// Whether this individual carries genes to breed from.
    spec fn has_chromosome(&self) -> bool;

    /// A fresh individual bred from a chromosome; its fitness is not yet
    /// meaningful.
    fn from_chromosome(chromosome: Chromosome) -> (r: Self)
        ensures
            r.has_chromosome(),
            r.chromosome_spec() == chromosome@,
    ;

    /// The genes this individual breeds from.
    fn as_chromosome(&self) -> (r: &Chromosome)
        requires
            self.has_chromosome(),
        ensures
            r@ == self.chromosome_spec(),
    ;

    /// The fitness score.
    fn fitness(&self) -> (r: i64)
        ensures
            r == self.fitness_spec(),
            fx_ok(r),
    ;
}

/// The fitness of each population member, in order.
pub open spec fn fits_of<I: Individual>(pop: Seq<I>) -> Seq<int> {
    Seq::new(pop.len(), |k: int| pop[k].fitness_spec())
}

/// The chromosome of each population member, in order.
pub open spec fn chromosomes_of<I: Individual>(pop: Seq<I>) -> Seq<Seq<i64>> {
    Seq::new(pop.len(), |k: int| pop[k].chromosome_spec())
}

/// Saturating sum of a gene sequence.
pub open spec fn sat_sum(s: Seq<i64>) -> int
    decreases s.len(),
{
    if s.len() == 0 {
        0
    } else {
        clip(sat_sum(s.drop_last()) + s.last())
    }
}

/// A minimal population member for exercising the genetic algorithm: either
/// a bare chromosome whose fitness is the saturating sum of its genes, or a
/// bare fitness score with no genes behind it.
#[derive(Debug)]
pub enum TestIndividual {
    WithChromosome { chromosome: Chromosome },
    WithFitness { fitness: i64 },
}

impl TestIndividual {
    pub fn from_fitness(fitness: i64) -> (r: TestIndividual)
        ensures
            r == (TestIndividual::WithFitness { fitness }),
    {
        TestIndividual::WithFitness { fitness }
    }
}

impl Individual for TestIndividual {
    open spec fn chromosome_spec(&self) -> Seq<i64> {
        match self {
            TestIndividual::WithChromosome { chromosome } => chromosome@,
            TestIndividual::WithFitness { .. } => Seq::empty(),
        }
    }

    open spec fn fitness_spec(&self) -> int {
        match self {
            TestIndividual::WithChromosome { chromosome } => sat_sum(chromosome@),
            TestIndividual::WithFitness { fitness } => clip(*fitness as int),
        }
    }

    open spec fn has_chromosome(&self) -> bool {
        self is WithChromosome
    }

    fn from_chromosome(chromosome: Chromosome) -> (r: Self) {
        TestIndividual::WithChromosome { chromosome }
    }

    fn as_chromosome(&self) -> (r: &Chromosome) {
        match self {
            TestIndividual::WithChromosome { chromosome } => chromosome,
            TestIndividual::WithFitness { .. } => {
                // excluded by the precondition
                proof {
                    assert(false);
                }
                vstd::pervasive::unreached()
            },
        }
    }

    fn fitness(&self) -> (r: i64) {
        match self {
            TestIndividual::WithChromosome { chromosome } => {
                proof {
                    use_type_invariant(chromosome);
                }
                let n: usize = chromosome.len();
                let mut acc: i64 = 0;
                let mut i: usize = 0;
                while i < n
                    invariant
                        0 <= i <= n,
                        n == chromosome@.len(),
                        genes_ok(chromosome@),
                        acc == sat_sum(chromosome@.take(i as int)),
                        fx_ok(acc),
                    decreases n - i,
                {
                    let g: i64 = chromosome.get(i);
                    proof {
                        assert(chromosome@.take(i as int + 1).drop_last() =~= chromosome@.take(
                            i as int,
                        ));
                        assert(chromosome@.take(i as int + 1).last() == chromosome@[i as int]);
                    }
                    acc = fx_add(acc, g);
                    i = i + 1;
                }
                proof {
                    assert(chromosome@.take(n as int) =~= chromosome@);
                }
                acc
            },
            TestIndividual::WithFitness { fitness } => {
                if *fitness > FX_MAX {
                    FX_MAX
                } else if *fitness < -FX_MAX {
                    -FX_MAX
                } else {
                    *fitness
                }
            },
        }
    }
}

} // verus!
