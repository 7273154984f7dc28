//! A single neuron: a weight vector, a bias, and a rectified weighted sum.

use vstd::prelude::*;
use crate::chromosome::{Chromosome, genes_ok};
use crate::fx::{FX_MAX, FX_ONE, clip, fx_mul, fx_mul_spec, fx_ok};
use crate::rng::RandomSource;

verus! {

/// The mathematical model of a neuron: its weights and its bias.
pub type NeuronRepr = (Seq<i64>, i64);

/// The weights and the bias lie within the representable magnitude.
pub open spec fn neuron_wf_r(n: NeuronRepr) -> bool {
    genes_ok(n.0) && fx_ok(n.1)
}

/// Rectifier: negative pre-activations floor at zero.
pub open spec fn relu_i(v: int) -> int {
    if v < 0 {
        0
    } else {
        v
    }
}

/// Fixed-point dot product: the sum of the saturated pairwise products.
pub open spec fn dot_fx(w: Seq<i64>, x: Seq<i64>) -> int
    decreases w.len(),
{
    if w.len() == 0 {
        0
    } else {
        dot_fx(w.drop_last(), x.drop_last()) + fx_mul_spec(w.last() as int, x.last() as int)
    }
}

/// What a neuron returns: the rectified, saturated weighted sum plus bias.
pub open spec fn neuron_out(n: NeuronRepr, x: Seq<i64>) -> int {
    clip(relu_i(dot_fx(n.0, x) + n.1))
}

/// The genes a neuron contributes to a chromosome: its bias, then its
/// weights, in order.
pub open spec fn flatten_neuron(n: NeuronRepr) -> Seq<i64> {
    seq![n.1] + n.0
}

/// The neuron read back from `genes` at offset `at`: one bias gene, then
/// `nin` weight genes.
pub open spec fn decode_neuron(nin: nat, genes: Seq<i64>, at: int) -> NeuronRepr {
    (genes.subrange(at + 1, at + 1 + nin), genes[at])
}

/// Reading back what a neuron wrote reproduces the neuron exactly.
pub proof fn lemma_decode_neuron(n: NeuronRepr, nin: nat, genes: Seq<i64>, at: int)
    requires
        n.0.len() == nin,
        0 <= at,
        at + 1 + nin <= genes.len(),
        genes.subrange(at, at + 1 + nin) == flatten_neuron(n),
    ensures
        decode_neuron(nin, genes, at) == n,
{
    let f = flatten_neuron(n);
    assert(genes[at] == f[0]);
    assert(genes.subrange(at + 1, at + 1 + nin) =~= n.0) by {
        assert forall|j: int| 0 <= j < nin implies genes.subrange(at + 1, at + 1 + nin)[j]
            == n.0[j] by {
            assert(genes.subrange(at, at + 1 + nin)[j + 1] == f[j + 1]);
        }
    }
}

/// A neuron: a weight for each input and a scalar bias.
#[derive(Debug)]
pub struct Neuron {
    weights: Vec<i64>,
    bias: i64,
}

impl Neuron {
    /// The mathematical model of this neuron.
    pub closed spec fn repr(&self) -> NeuronRepr {
        (self.weights@, self.bias)
    }

    pub fn new(weights: Vec<i64>, bias: i64) -> (r: Neuron)
        requires
            genes_ok(weights@),
            fx_ok(bias),
        ensures
            r.repr() == (weights@, bias),
            neuron_wf_r(r.repr()),
    {
        Neuron { weights, bias }
    }

    /// A neuron with `nin` uniform random weights in `[-1, 1]` and the given
    /// bias.
    pub fn new_random(rng: &mut RandomSource, nin: usize, bias: i64) -> (r: Neuron)
        requires
            fx_ok(bias),
        ensures
            neuron_wf_r(r.repr()),
            r.repr().0.len() == nin,
            r.repr().1 == bias,
            forall|j: int| 0 <= j < nin ==> -FX_ONE <= #[trigger] r.repr().0[j] <= FX_ONE,
    {
        let mut weights: Vec<i64> = Vec::new();
        let mut k: usize = 0;
        while k < nin
            invariant
                0 <= k <= nin,
                weights@.len() == k,
                forall|j: int| 0 <= j < k ==> -FX_ONE <= #[trigger] weights@[j] <= FX_ONE,
            decreases nin - k,
        {
            let w: i64 = rng.next_in_range(-FX_ONE, FX_ONE);
            weights.push(w);
            k = k + 1;
        }
        Neuron { weights, bias }
    }

    /// The neuron decoded from `genes` at offset `at`: one bias gene, then
    /// `nin` weight genes, in that exact order.
    pub fn from_weight_and_biases(nin: usize, genes: &Chromosome, at: usize) -> (r: Neuron)
        requires
            at + 1 + nin <= genes@.len(),
        ensures
            r.repr() == decode_neuron(nin as nat, genes@, at as int),
            neuron_wf_r(r.repr()),
            r.repr().0.len() == nin,
    {
        proof {
            use_type_invariant(genes);
        }
        let glen: usize = genes.len();
        let bias: i64 = genes.get(at);
        let mut weights: Vec<i64> = Vec::new();
        let mut k: usize = 0;
        while k < nin
            invariant
                0 <= k <= nin,
                glen == genes@.len(),
                at + 1 + nin <= glen,
                genes_ok(genes@),
                weights@ =~= genes@.subrange(at as int + 1, at as int + 1 + k as int),
            decreases nin - k,
        {
            let w: i64 = genes.get(at + 1 + k);
            weights.push(w);
            proof {
                assert(weights@ =~= genes@.subrange(at as int + 1, at as int + 1 + (k + 1)));
            }
            k = k + 1;
        }
        proof {
            assert(genes@.subrange(at as int + 1, at as int + 1 + nin as int)
                =~= decode_neuron(nin as nat, genes@, at as int).0);
        }
        Neuron { weights, bias }
    }

    /// Append this neuron's genes: the bias, then the weights, in order.
    pub fn append_genes(&self, out: &mut Vec<i64>)
        ensures
            final(out)@ == old(out)@ + flatten_neuron(self.repr()),
    {
        out.push(self.bias);
        proof {
            assert(out@ =~= old(out)@ + seq![self.bias]);
        }
        let n: usize = self.weights.len();
        let mut m: usize = 0;
        while m < n
            invariant
                0 <= m <= n,
                n == self.weights@.len(),
                out@ == old(out)@ + seq![self.bias] + self.weights@.take(m as int),
            decreases n - m,
        {
            let w: i64 = self.weights[m];
            out.push(w);
            proof {
                assert(self.weights@.take(m as int + 1) =~= self.weights@.take(m as int).push(
                    self.weights@[m as int],
                ));
                assert((old(out)@ + seq![self.bias] + self.weights@.take(m as int)).push(w)
                    =~= old(out)@ + seq![self.bias] + self.weights@.take(m as int + 1));
            }
            m = m + 1;
        }
        proof {
            assert(self.weights@.take(n as int) =~= self.weights@);
            assert(old(out)@ + seq![self.bias] + self.weights@ =~= old(out)@ + flatten_neuron(
                self.repr(),
            ));
        }
    }

    /// The rectified weighted sum: `relu(dot(inputs, weights) + bias)`,
    /// saturated into the representable range.
    pub fn forward(&self, inputs: &Vec<i64>) -> (r: i64)
        requires
            inputs@.len() == self.repr().0.len(),
            genes_ok(inputs@),
            neuron_wf_r(self.repr()),
        ensures
            r == neuron_out(self.repr(), inputs@),
            fx_ok(r),
    {
        let n: usize = self.weights.len();
        let mut acc: i128 = 0;
        let mut i: usize = 0;
        while i < n
            invariant
                0 <= i <= n,
                n == self.weights@.len(),
                n == inputs@.len(),
                genes_ok(inputs@),
                neuron_wf_r(self.repr()),
                self.repr().0 == self.weights@,
                acc == dot_fx(self.weights@.take(i as int), inputs@.take(i as int)),
                -(i as int) * FX_MAX <= acc <= (i as int) * FX_MAX,
            decreases n - i,
        {
            let w: i64 = self.weights[i];
            let x: i64 = inputs[i];
            let t: i64 = fx_mul(w, x);
            proof {
                assert(self.weights@.take(i as int + 1).drop_last() =~= self.weights@.take(
                    i as int,
                ));
                assert(inputs@.take(i as int + 1).drop_last() =~= inputs@.take(i as int));
                assert(self.weights@.take(i as int + 1).last() == self.weights@[i as int]);
                assert(inputs@.take(i as int + 1).last() == inputs@[i as int]);
            }
            acc = acc + t as i128;
            i = i + 1;
        }
        proof {
            assert(self.weights@.take(n as int) =~= self.weights@);
            assert(inputs@.take(n as int) =~= inputs@);
        }
        let s: i128 = acc + self.bias as i128;
        let rect: i128 = if s < 0 {
            0
        } else {
            s
        };
        crate::fx::clip_i128(rect)
    }
}

} // verus!
