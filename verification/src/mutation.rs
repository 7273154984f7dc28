//! Gaussian mutation: each gene is nudged, with a configured probability, by
//! a bell-shaped sample scaled by a configured strength.

use vstd::prelude::*;
use crate::chromosome::Chromosome;
use crate::fx::{FX_MAX, FX_ONE, clip, fx_add, fx_mul, fx_mul_spec, fx_ok, lemma_fx_mul_zero};
use crate::rng::RandomSource;

verus! {

/// Every new gene is the old gene at the same index, moved by some
/// bell-range sample scaled by `strength` and saturated.
pub open spec fn nudged_by(olds: Seq<i64>, news: Seq<i64>, strength: int) -> bool {
    forall|i: int|
        0 <= i < news.len() ==> exists|d: int|
            -6 * FX_ONE <= d <= 6 * FX_ONE && #[trigger] news[i] == clip(
                olds[i] + fx_mul_spec(d, strength),
            )
}

/// The capability of perturbing a chromosome's genes.
///
/// Mutation keeps the chromosome's length; a configuration that is an
/// identity (rate or strength of zero) returns every gene numerically
/// unchanged; otherwise each gene either stays or moves by a scaled
/// bell-shaped sample.
pub trait Mutation {
    /// Whether this configuration can never change a gene.
    spec fn is_identity(&self) -> bool;

    /// The scale applied to the bell-shaped samples.
    spec fn strength_spec(&self) -> int;

    fn mutate(&self, rng: &mut RandomSource, chromosome: &Chromosome) -> (r: Chromosome)
        ensures
            r@.len() == chromosome@.len(),
            self.is_identity() ==> r@ == chromosome@,
            nudged_by(chromosome@, r@, self.strength_spec()),
    ;
}

/// Mutation that, for each gene independently, adds a standard bell-shaped
/// sample scaled by `mutation_strength` with probability
/// `mutation_rate / FX_ONE`.
pub struct GaussianMutation {
    mutation_rate: i64,
    mutation_strength: i64,
}

impl GaussianMutation {
    /// The configured probability, in fixed-point steps of one.
    pub closed spec fn rate_spec(&self) -> int {
        self.mutation_rate as int
    }

    pub fn new(mutation_rate: i64, mutation_strength: i64) -> (r: GaussianMutation)
        requires
            0 <= mutation_rate <= FX_ONE,
            0 <= mutation_strength <= FX_MAX,
        ensures
            r.rate_spec() == mutation_rate,
            r.strength_spec() == mutation_strength,
            r.is_identity() <==> (mutation_rate == 0 || mutation_strength == 0),
    {
        GaussianMutation { mutation_rate, mutation_strength }
    }

    #[verifier::type_invariant]
    spec fn inv(self) -> bool {
        0 <= self.mutation_rate <= FX_ONE && 0 <= self.mutation_strength <= FX_MAX
    }
}

impl Mutation for GaussianMutation {
    closed spec fn is_identity(&self) -> bool {
        self.mutation_rate == 0 || self.mutation_strength == 0
    }

    closed spec fn strength_spec(&self) -> int {
        self.mutation_strength as int
    }

    fn mutate(&self, rng: &mut RandomSource, chromosome: &Chromosome) -> (r: Chromosome) {
        proof {
            use_type_invariant(self);
            use_type_invariant(chromosome);
        }
        let n: usize = chromosome.len();
        let mut genes: Vec<i64> = Vec::new();
        let mut i: usize = 0;
        while i < n
            invariant
                0 <= i <= n,
                n == chromosome@.len(),
                crate::chromosome::genes_ok(chromosome@),
                0 <= self.mutation_rate <= FX_ONE,
                0 <= self.mutation_strength <= FX_MAX,
                genes@.len() == i,
                self.is_identity() ==> genes@ =~= chromosome@.take(i as int),
                nudged_by(chromosome@, genes@, self.strength_spec()),
                forall|k: int| 0 <= k < i ==> fx_ok(#[trigger] genes@[k]),
            decreases n - i,
        {
            let g: i64 = chromosome.get(i);
            let ghost mut d_wit: int = 0;
            let g2: i64;
            if rng.bernoulli(self.mutation_rate) {
                let sample: i64 = rng.standard_bell();
                g2 = fx_add(g, fx_mul(sample, self.mutation_strength));
                proof {
                    d_wit = sample as int;
                    if self.mutation_strength == 0 {
                        lemma_fx_mul_zero(sample as int);
                        assert(g2 == g);
                    }
                    assert(fx_ok(g2));
                }
            } else {
                g2 = g;
                proof {
                    lemma_fx_mul_zero(self.strength_spec());
                    assert(g2 == clip(
                        chromosome@[i as int] + fx_mul_spec(0, self.strength_spec()),
                    ));
                }
            }
            genes.push(g2);
            proof {
                assert(genes@[i as int] == clip(
                    chromosome@[i as int] + fx_mul_spec(d_wit, self.strength_spec()),
                ));
            }
            i = i + 1;
        }
        proof {
            if self.is_identity() {
                assert(genes@ =~= chromosome@);
            }
        }
        let r: Chromosome = Chromosome::new(genes);
        proof {
            assert(nudged_by(chromosome@, r@, self.strength_spec()));
        }
        r
    }
}

} // verus!
