//! The fitness distribution of one completed generation: extremes, mean and
//! population standard deviation, computed once from the outgoing
//! population.

use vstd::prelude::*;
use crate::fx::{FX_MAX, div_trunc, div_trunc_i128, fx_ok, isqrt, sqrt_floor};
use crate::individual::{Individual, fits_of};
use crate::selection::MAX_POPULATION;

verus! {

/// The largest of the values of a non-empty sequence.
pub open spec fn max_of(s: Seq<int>) -> int
    recommends
        s.len() > 0,
    decreases s.len(),
{
    if s.len() <= 1 {
        s[0]
    } else {
        let m = max_of(s.drop_last());
        if s.last() > m {
            s.last()
        } else {
            m
        }
    }
}

/// The smallest of the values of a non-empty sequence.
pub open spec fn min_of(s: Seq<int>) -> int
    recommends
        s.len() > 0,
    decreases s.len(),
{
    if s.len() <= 1 {
        s[0]
    } else {
        let m = min_of(s.drop_last());
        if s.last() < m {
            s.last()
        } else {
            m
        }
    }
}

/// The sum of the values.
pub open spec fn sum_of(s: Seq<int>) -> int
    decreases s.len(),
{
    if s.len() == 0 {
        0
    } else {
        sum_of(s.drop_last()) + s.last()
    }
}

/// The sum of the squared values.
pub open spec fn sumsq_of(s: Seq<int>) -> int
    decreases s.len(),
{
    if s.len() == 0 {
        0
    } else {
        sumsq_of(s.drop_last()) + s.last() * s.last()
    }
}

/// The mean, truncated toward zero.
pub open spec fn mean_of(s: Seq<int>) -> int
    recommends
        s.len() > 0,
{
    div_trunc(sum_of(s), s.len() as int)
}

/// The population variance, from the mean of squares minus the squared
/// mean; truncation can push it a step below zero.
pub open spec fn var_of(s: Seq<int>) -> int
    recommends
        s.len() > 0,
{
    div_trunc(sumsq_of(s), s.len() as int) - mean_of(s) * mean_of(s)
}

/// The population standard deviation: the square root of the variance,
/// floored at zero.
pub open spec fn std_of(s: Seq<int>) -> int
    recommends
        s.len() > 0,
{
    sqrt_floor(
        (if var_of(s) < 0 {
            0
        } else {
            var_of(s)
        }) as nat,
    ) as int
}

/// An immutable snapshot of one generation's fitness distribution.
pub struct GenerationStatistics {
    max_fitness: i64,
    min_fitness: i64,
    mean_fitness: i64,
    std_fitness: i64,
}

impl GenerationStatistics {
    pub closed spec fn max_spec(&self) -> i64 {
        self.max_fitness
    }

    pub closed spec fn min_spec(&self) -> i64 {
        self.min_fitness
    }

    pub closed spec fn mean_spec(&self) -> i64 {
        self.mean_fitness
    }

    pub closed spec fn std_spec(&self) -> i64 {
        self.std_fitness
    }

    pub fn max_fitness(&self) -> (r: i64)
        ensures
            r == self.max_spec(),
    {
        self.max_fitness
    }

    pub fn min_fitness(&self) -> (r: i64)
        ensures
            r == self.min_spec(),
    {
        self.min_fitness
    }

    pub fn mean_fitness(&self) -> (r: i64)
        ensures
            r == self.mean_spec(),
    {
        self.mean_fitness
    }

    pub fn std_fitness(&self) -> (r: i64)
        ensures
            r == self.std_spec(),
    {
        self.std_fitness
    }

    /// The distribution of the population's fitness values: maximum,
    /// minimum, truncated mean, and population standard deviation.
    pub fn from_population<I: Individual>(population: &Vec<I>) -> (r: GenerationStatistics)
        requires
            1 <= population@.len() <= MAX_POPULATION,
        ensures
            r.max_spec() == max_of(fits_of(population@)),
            r.min_spec() == min_of(fits_of(population@)),
            r.mean_spec() == mean_of(fits_of(population@)),
            r.std_spec() == std_of(fits_of(population@)),
    {
        let n: usize = population.len();
        let ghost fits: Seq<int> = fits_of(population@);
        let mut max_fitness: i64 = population[0].fitness();
        let mut min_fitness: i64 = max_fitness;
        let mut sum: i128 = 0;
        let mut sumsq: i128 = 0;
        let mut i: usize = 0;
        proof {
            assert(fits.take(1).drop_last() =~= fits.take(0));
        }
        while i < n
            invariant
                0 <= i <= n,
                n == population@.len(),
                1 <= n <= MAX_POPULATION,
                fits == fits_of(population@),
                fits.len() == n,
                i > 0 ==> max_fitness == max_of(fits.take(i as int)),
                i > 0 ==> min_fitness == min_of(fits.take(i as int)),
                i == 0 ==> max_fitness == fits[0] && min_fitness == fits[0],
                sum == sum_of(fits.take(i as int)),
                sumsq == sumsq_of(fits.take(i as int)),
                -(i as int) * FX_MAX <= sum <= (i as int) * FX_MAX,
                0 <= sumsq <= (i as int) * 0x1_0000_0000_0000_0000_0000,
                fx_ok(max_fitness),
                fx_ok(min_fitness),
            decreases n - i,
        {
            let w: i64 = population[i].fitness();
            proof {
                assert(fits[i as int] == population@[i as int].fitness_spec());
                assert(fits.take(i as int + 1).drop_last() =~= fits.take(i as int));
                assert(fits.take(i as int + 1).last() == fits[i as int]);
                assert((w as int) * (w as int) <= 0x1_0000_0000_0000_0000_0000)
                    by (nonlinear_arith)
                    requires
                        -0x100_0000_0000 <= w as int <= 0x100_0000_0000,
                ;
                assert((w as int) * (w as int) >= 0) by (nonlinear_arith);
            }
            if i == 0 {
                max_fitness = w;
                min_fitness = w;
            } else {
                if w > max_fitness {
                    max_fitness = w;
                }
                if w < min_fitness {
                    min_fitness = w;
                }
            }
            sum = sum + w as i128;
            sumsq = sumsq + (w as i128) * (w as i128);
            i = i + 1;
        }
        proof {
            assert(fits.take(n as int) =~= fits);
        }

        let mean: i128 = div_trunc_i128(sum, n as u64);
        proof {
            vstd::arithmetic::mul::lemma_mul_is_commutative(n as int, FX_MAX as int);
            vstd::arithmetic::div_mod::lemma_div_is_ordered(
                (if sum >= 0 {
                    sum as int
                } else {
                    -(sum as int)
                }),
                (FX_MAX as int) * (n as int),
                n as int,
            );
            vstd::arithmetic::div_mod::lemma_div_by_multiple(FX_MAX as int, n as int);
            vstd::arithmetic::div_mod::lemma_div_pos_is_pos(
                (if sum >= 0 {
                    sum as int
                } else {
                    -(sum as int)
                }),
                n as int,
            );
            assert(-(FX_MAX as int) <= mean as int <= FX_MAX as int);
            assert((mean as int) * (mean as int) <= 0x1_0000_0000_0000_0000_0000)
                by (nonlinear_arith)
                requires
                    -0x100_0000_0000 <= mean as int <= 0x100_0000_0000,
            ;
            assert((mean as int) * (mean as int) >= 0) by (nonlinear_arith);
            vstd::arithmetic::mul::lemma_mul_is_commutative(
                n as int,
                0x1_0000_0000_0000_0000_0000,
            );
            vstd::arithmetic::div_mod::lemma_div_is_ordered(
                sumsq as int,
                0x1_0000_0000_0000_0000_0000 * (n as int),
                n as int,
            );
            vstd::arithmetic::div_mod::lemma_div_by_multiple(
                0x1_0000_0000_0000_0000_0000,
                n as int,
            );
            vstd::arithmetic::div_mod::lemma_div_pos_is_pos(sumsq as int, n as int);
        }
        let meansq: i128 = div_trunc_i128(sumsq, n as u64);
        let var: i128 = meansq - mean * mean;
        let std_fitness: i64 = if var < 0 {
            proof {
                assert(sqrt_floor(0) == 0);
            }
            0
        } else {
            isqrt(var as u128) as i64
        };
        GenerationStatistics {
            max_fitness,
            min_fitness,
            mean_fitness: mean as i64,
            std_fitness,
        }
    }
}

} // verus!
