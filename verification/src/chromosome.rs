//! The chromosome: an ordered vector of fixed-point genes.

use vstd::prelude::*;
use crate::fx::fx_ok;

verus! {

/// Every gene of the sequence lies within the representable magnitude.
pub open spec fn genes_ok(s: Seq<i64>) -> bool {
    forall|i: int| 0 <= i < s.len() ==> fx_ok(#[trigger] s[i])
}

/// An ordered sequence of fixed-point genes. Its length is structurally
/// meaningful: it must equal the parameter count of the network it encodes.
#[derive(Debug)]
pub struct Chromosome {
    genes: Vec<i64>,
}

impl View for Chromosome {
    type V = Seq<i64>;

    closed spec fn view(&self) -> Seq<i64> {
        self.genes@
    }
}

impl Chromosome {
    /// Every gene lies within the representable magnitude, whichever way
    /// the value was built.
    #[verifier::type_invariant]
    pub open spec fn inv(self) -> bool {
        genes_ok(self@)
    }

    pub fn new(genes: Vec<i64>) -> (r: Chromosome)
        requires
            genes_ok(genes@),
        ensures
            r@ == genes@,
    {
        Chromosome { genes }
    }

    pub fn len(&self) -> (r: usize)
        ensures
            r == self@.len(),
    {
        self.genes.len()
    }

    pub fn get(&self, index: usize) -> (r: i64)
        requires
            index < self@.len(),
        ensures
            r == self@[index as int],
            fx_ok(r),
    {
        proof {
            use_type_invariant(self);
        }
        self.genes[index]
    }
}

} // verus!
