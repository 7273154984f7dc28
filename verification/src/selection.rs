//! Fitness-proportionate selection: individuals are drawn, with replacement,
//! with probability proportional to their fitness.

use vstd::prelude::*;
use crate::errors::GaError;
use crate::fx::{FX_MAX, fx_ok};
use crate::individual::Individual;
use crate::rng::RandomSource;

verus! {

/// The most individuals a population handed to selection may hold, so that
/// the fitness total fits the machine word the draw is taken from.
pub const MAX_POPULATION: usize = 0x40_0000;

/// Every fitness in the population is non-negative.
pub open spec fn nonneg_fitness<I: Individual>(pop: Seq<I>) -> bool {
    forall|i: int| 0 <= i < pop.len() ==> #[trigger] pop[i].fitness_spec() >= 0
}

/// The sum of the population's fitness values.
pub open spec fn total_fitness<I: Individual>(pop: Seq<I>) -> int
    decreases pop.len(),
{
    if pop.len() == 0 {
        0
    } else {
        total_fitness(pop.drop_last()) + pop.last().fitness_spec()
    }
}

/// A population of non-negative fitness values has a non-negative total.
pub proof fn lemma_total_nonneg<I: Individual>(pop: Seq<I>)
    requires
        nonneg_fitness(pop),
    ensures
        total_fitness(pop) >= 0,
    decreases pop.len(),
{
    if pop.len() > 0 {
        assert(nonneg_fitness(pop.drop_last())) by {
            assert(forall|i: int|
                0 <= i < pop.len() - 1 ==> #[trigger] pop.drop_last()[i] == pop[i]);
        }
        lemma_total_nonneg(pop.drop_last());
    }
}

/// With non-negative fitness values, the total is positive exactly where
/// some member's fitness is.
pub proof fn lemma_total_pos<I: Individual>(pop: Seq<I>)
    requires
        nonneg_fitness(pop),
    ensures
        (total_fitness(pop) > 0) <==> (exists|i: int|
            0 <= i < pop.len() && #[trigger] pop[i].fitness_spec() > 0),
    decreases pop.len(),
{
    if pop.len() > 0 {
        let rest = pop.drop_last();
        assert(nonneg_fitness(rest)) by {
            assert(forall|i: int| 0 <= i < rest.len() ==> #[trigger] rest[i] == pop[i]);
        }
        lemma_total_nonneg(rest);
        lemma_total_pos(rest);
        if total_fitness(pop) > 0 {
            if pop.last().fitness_spec() > 0 {
                assert(pop[pop.len() - 1].fitness_spec() > 0);
            } else {
                let i = choose|i: int| 0 <= i < rest.len() && #[trigger] rest[i].fitness_spec()
                    > 0;
                assert(pop[i].fitness_spec() > 0);
            }
        }
        if exists|i: int| 0 <= i < pop.len() && #[trigger] pop[i].fitness_spec() > 0 {
            let i = choose|i: int| 0 <= i < pop.len() && #[trigger] pop[i].fitness_spec() > 0;
            if i == pop.len() - 1 {
                assert(total_fitness(pop) >= pop.last().fitness_spec());
            } else {
                assert(rest[i].fitness_spec() > 0);
            }
        }
    }
}

/// Sum of the first `k` weights.
pub open spec fn sum_prefix(s: Seq<i64>, k: int) -> int
    decreases k,
{
    if k <= 0 {
        0
    } else {
        sum_prefix(s, k - 1) + s[k - 1]
    }
}

/// Prefix sums of non-negative weights grow with the prefix.
proof fn lemma_sum_prefix_le(s: Seq<i64>, i: int, j: int)
    requires
        0 <= i <= j <= s.len(),
        forall|k: int| 0 <= k < s.len() ==> #[trigger] s[k] >= 0,
    ensures
        sum_prefix(s, i) <= sum_prefix(s, j),
    decreases j - i,
{
    if i < j {
        lemma_sum_prefix_le(s, i, j - 1);
    }
}

/// Appending a weight leaves earlier prefix sums unchanged.
proof fn lemma_sum_prefix_push(s: Seq<i64>, w: i64, k: int)
    requires
        0 <= k <= s.len(),
    ensures
        sum_prefix(s.push(w), k) == sum_prefix(s, k),
    decreases k,
{
    if k > 0 {
        lemma_sum_prefix_push(s, w, k - 1);
        assert(s.push(w)[k - 1] == s[k - 1]);
    }
}

/// Find the weight bucket that a uniform draw `t` falls into: the unique
/// index whose prefix-sum window contains `t`. Whatever the draw, only an
/// index with a positive weight can be returned.
pub fn pick_weighted(weights: &Vec<i64>, t: u64) -> (idx: usize)
    requires
        weights@.len() >= 1,
        forall|i: int| 0 <= i < weights@.len() ==> #[trigger] weights@[i] >= 0,
        forall|i: int| 0 <= i < weights@.len() ==> fx_ok(#[trigger] weights@[i]),
        t < sum_prefix(weights@, weights@.len() as int),
        sum_prefix(weights@, weights@.len() as int) <= 0x4000_0000_0000_0000,
    ensures
        idx < weights@.len(),
        weights@[idx as int] > 0,
        sum_prefix(weights@, idx as int) <= t < sum_prefix(weights@, idx as int + 1),
{
    let n: usize = weights.len();
    let mut acc: u64 = 0;
    let mut i: usize = 0;
    while i < n
        invariant
            0 <= i <= n,
            n == weights@.len(),
            forall|k: int| 0 <= k < weights@.len() ==> #[trigger] weights@[k] >= 0,
            forall|k: int| 0 <= k < weights@.len() ==> fx_ok(#[trigger] weights@[k]),
            t < sum_prefix(weights@, n as int),
            sum_prefix(weights@, n as int) <= 0x4000_0000_0000_0000,
            acc == sum_prefix(weights@, i as int),
            acc <= t,
        decreases n - i,
    {
        let w: i64 = weights[i];
        proof {
            lemma_sum_prefix_le(weights@, i as int + 1, n as int);
        }
        if t < acc + w as u64 {
            return i;
        }
        acc = acc + w as u64;
        i = i + 1;
    }
    proof {
        assert(false);
    }
    0
}

/// The capability of drawing individuals from a fitness-ranked population.
///
/// A draw succeeds exactly where every fitness is non-negative and their sum
/// is positive; each drawn individual then has positive fitness. Whether a
/// population with no positive fitness should instead fall back to a uniform
/// draw is left to the embedding application: here it is reported as a
/// fault, with nothing drawn. The fitness check is eager: a population with
/// no positive weight faults even where no draw was requested (`cnt == 0`).
pub trait Selection {
    fn select<'a, I: Individual>(
        &self,
        rng: &mut RandomSource,
        population: &'a Vec<I>,
        cnt: usize,
    ) -> (r: Result<Vec<&'a I>, GaError>)
        requires
            1 <= population@.len() <= MAX_POPULATION,
        ensures
            match r {
                Ok(sel) => {
                    &&& sel@.len() == cnt
                    &&& nonneg_fitness(population@)
                    &&& total_fitness(population@) > 0
                    &&& forall|j: int|
                        0 <= j < sel@.len() ==> exists|i: int|
                            0 <= i < population@.len() && *(#[trigger] sel@[j])
                                == population@[i]
                    &&& forall|j: int|
                        0 <= j < sel@.len() ==> (*(#[trigger] sel@[j])).fitness_spec() > 0
                },
                Err(e) => {
                    &&& !(nonneg_fitness(population@) && total_fitness(population@) > 0)
                    &&& (e == GaError::NegativeFitness <==> !nonneg_fitness(population@))
                    &&& (e == GaError::ZeroFitnessSum <==> nonneg_fitness(population@)
                        && total_fitness(population@) <= 0)
                },
            },
    ;
}

/// Selection weighted by raw fitness.
pub struct FitnessProportionateSelection;

impl FitnessProportionateSelection {
    pub fn new() -> (r: FitnessProportionateSelection)
    {
        FitnessProportionateSelection
    }
}

impl Selection for FitnessProportionateSelection {
    fn select<'a, I: Individual>(
        &self,
        rng: &mut RandomSource,
        population: &'a Vec<I>,
        cnt: usize,
    ) -> (r: Result<Vec<&'a I>, GaError>) {
        let n: usize = population.len();
        let mut weights: Vec<i64> = Vec::new();
        let mut total: i64 = 0;
        let mut i: usize = 0;
        while i < n
            invariant
                0 <= i <= n,
                n == population@.len() <= MAX_POPULATION,
                weights@.len() == i,
                forall|k: int|
                    0 <= k < i ==> #[trigger] weights@[k] == population@[k].fitness_spec(),
                forall|k: int| 0 <= k < i ==> #[trigger] weights@[k] >= 0,
                forall|k: int| 0 <= k < i ==> fx_ok(#[trigger] weights@[k]),
                nonneg_fitness(population@.take(i as int)),
                total == total_fitness(population@.take(i as int)),
                total == sum_prefix(weights@, i as int),
                0 <= total <= i * FX_MAX,
            decreases n - i,
        {
            let w: i64 = population[i].fitness();
            if w < 0 {
                proof {
                    assert(population@[i as int].fitness_spec() < 0);
                }
                return Err(GaError::NegativeFitness);
            }
            proof {
                assert(population@.take(i as int + 1).drop_last() =~= population@.take(i as int));
                assert(population@.take(i as int + 1).last() == population@[i as int]);
            }
            proof {
                lemma_sum_prefix_push(weights@, w, i as int);
            }
            weights.push(w);
            total = total + w;
            i = i + 1;
        }
        proof {
            assert(population@.take(n as int) =~= population@);
        }
        if total == 0 {
            return Err(GaError::ZeroFitnessSum);
        }

        let mut out: Vec<&'a I> = Vec::new();
        let mut j: usize = 0;
        while j < cnt
            invariant
                0 <= j <= cnt,
                n == population@.len() <= MAX_POPULATION,
                weights@.len() == n,
                n >= 1,
                forall|k: int|
                    0 <= k < n ==> #[trigger] weights@[k] == population@[k].fitness_spec(),
                forall|k: int| 0 <= k < n ==> #[trigger] weights@[k] >= 0,
                forall|k: int| 0 <= k < n ==> fx_ok(#[trigger] weights@[k]),
                0 < total <= n * FX_MAX,
                total == sum_prefix(weights@, n as int),
                out@.len() == j,
                forall|k: int|
                    0 <= k < j ==> exists|i2: int|
                        0 <= i2 < population@.len() && *(#[trigger] out@[k]) == population@[i2],
                forall|k: int| 0 <= k < j ==> (*(#[trigger] out@[k])).fitness_spec() > 0,
            decreases cnt - j,
        {
            let t: u64 = rng.next_below(total as u64);
            let idx: usize = pick_weighted(&weights, t);
            let chosen: &'a I = &population[idx];
            proof {
                assert(*chosen == population@[idx as int]);
                assert((*chosen).fitness_spec() == weights@[idx as int]);
            }
            out.push(chosen);
            j = j + 1;
        }
        Ok(out)
    }
}

} // verus!
