//! The pseudorandom source.
//!
//! Every operation that consumes randomness takes a [`RandomSource`]
//! explicitly, so a fixed seed yields a reproducible run. The only draws
//! taken on trust are uniform integer draws from the `rand` crate; Bernoulli
//! trials, ranges, angles and the bell-shaped samples used by mutation are
//! built from those draws in verified code.

use vstd::prelude::*;
use rand::Rng;
use rand::SeedableRng;
use crate::fx::{FX_MAX, FX_ONE, FX_PI, fx_ok};

verus! {

/// Relies on rand::rngs::StdRng: an owned, seedable pseudorandom generator,
/// opaque to the verifier.
#[verifier::external_type_specification]
#[verifier::external_body]
pub struct ExStdRng(rand::rngs::StdRng);

/// A deterministic pseudorandom generator, seeded once and stepped by the
/// draws made from it.
pub struct RandomSource {
    inner: rand::rngs::StdRng,
}

impl RandomSource {
    /// Relies on rand::rngs::StdRng::seed_from_u64 (SeedableRng): builds a
    /// generator whose draw sequence is a function of the seed alone.
    #[verifier::external_body]
    pub fn seeded(seed: u64) -> RandomSource {
        RandomSource { inner: rand::rngs::StdRng::seed_from_u64(seed) }
    }

    /// Relies on rand::Rng::gen_range over `0..n`: a draw from a non-empty
    /// integer range lies in that range.
    #[verifier::external_body]
    pub fn next_below(&mut self, n: u64) -> (r: u64)
        requires
            n > 0,
        ensures
            r < n,
    {
        self.inner.gen_range(0..n)
    }

    /// A draw from the inclusive range `[lo, hi]`.
    pub fn next_in_range(&mut self, lo: i64, hi: i64) -> (r: i64)
        requires
            -FX_MAX <= lo <= hi <= FX_MAX,
        ensures
            lo <= r <= hi,
    {
        let span: u64 = (hi - lo) as u64 + 1;
        let d: u64 = self.next_below(span);
        lo + d as i64
    }

    /// A Bernoulli trial: true with probability `rate / FX_ONE`.
    pub fn bernoulli(&mut self, rate: i64) -> (r: bool)
        requires
            0 <= rate <= FX_ONE,
        ensures
            rate == 0 ==> !r,
            rate == FX_ONE ==> r,
    {
        let d: u64 = self.next_below(FX_ONE as u64);
        d < rate as u64
    }

    /// A uniform fixed-point coordinate in `[0, FX_ONE)`.
    pub fn unit_coord(&mut self) -> (r: i64)
        ensures
            0 <= r < FX_ONE,
    {
        self.next_below(FX_ONE as u64) as i64
    }

    /// A uniform fixed-point angle in `[-FX_PI, FX_PI]`.
    pub fn angle(&mut self) -> (r: i64)
        ensures
            -FX_PI <= r <= FX_PI,
    {
        self.next_in_range(-FX_PI, FX_PI)
    }

    /// A sample from the library's standard bell-shaped distribution: the sum
    /// of twelve uniform unit draws, centred. It has mean zero and unit
    /// variance, and magnitude at most six.
    pub fn standard_bell(&mut self) -> (r: i64)
        ensures
            -6 * FX_ONE <= r <= 6 * FX_ONE,
            fx_ok(r),
    {
        let mut acc: i64 = 0;
        let mut k: usize = 0;
        while k < 12
            invariant
                0 <= k <= 12,
                0 <= acc <= k * FX_ONE,
            decreases 12 - k,
        {
            let d: i64 = self.next_below(FX_ONE as u64 + 1) as i64;
            acc = acc + d;
            k = k + 1;
        }
        acc - 6 * FX_ONE
    }
}

} // verus!
