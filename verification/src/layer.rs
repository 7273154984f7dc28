//! A layer: an ordered sequence of neurons sharing one input arity.

use vstd::prelude::*;
use crate::chromosome::{Chromosome, genes_ok};
use crate::fx::{FX_ONE, fx_ok};
use crate::neuron::{
    Neuron, NeuronRepr, decode_neuron, flatten_neuron, lemma_decode_neuron, neuron_out,
    neuron_wf_r,
};
use crate::rng::RandomSource;

verus! {

/// The mathematical model of a layer: its neurons, in order.
pub type LayerRepr = Seq<NeuronRepr>;

/// Every neuron is well formed and takes `nin` inputs.
pub open spec fn layer_wf_r(l: LayerRepr, nin: nat) -> bool {
    forall|j: int|
        0 <= j < l.len() ==> neuron_wf_r(#[trigger] l[j]) && l[j].0.len() == nin
}

/// What a layer returns: one rectified weighted sum per neuron, in order.
pub open spec fn layer_out(l: LayerRepr, x: Seq<i64>) -> Seq<i64> {
    Seq::new(l.len(), |j: int| neuron_out(l[j], x) as i64)
}

/// The genes a layer contributes to a chromosome: each neuron's genes, in
/// neuron order.
pub open spec fn flatten_layer(l: LayerRepr) -> Seq<i64>
    decreases l.len(),
{
    if l.len() == 0 {
        Seq::empty()
    } else {
        flatten_neuron(l.first()) + flatten_layer(l.drop_first())
    }
}

/// The layer read back from `genes` at offset `at`: `nout` neurons of `nin`
/// weights each, in order.
pub open spec fn decode_layer(nin: nat, nout: nat, genes: Seq<i64>, at: int) -> LayerRepr {
    Seq::new(nout, |j: int| decode_neuron(nin, genes, at + j * (nin + 1)))
}

/// A well-formed layer writes `(nin + 1)` genes per neuron.
pub proof fn lemma_flatten_layer_len(l: LayerRepr, nin: nat)
    requires
        layer_wf_r(l, nin),
    ensures
        flatten_layer(l).len() == l.len() * (nin + 1),
    decreases l.len(),
{
    if l.len() == 0 {
    } else {
        assert(layer_wf_r(l.drop_first(), nin));
        lemma_flatten_layer_len(l.drop_first(), nin);
        assert(flatten_neuron(l.first()).len() == nin + 1);
        assert((l.len() - 1) * (nin + 1) + (nin + 1) == l.len() * (nin + 1)) by (nonlinear_arith);
    }
}

/// Reading back what a layer wrote reproduces the layer exactly.
pub proof fn lemma_decode_layer(l: LayerRepr, nin: nat, genes: Seq<i64>, at: int)
    requires
        layer_wf_r(l, nin),
        0 <= at,
        at + l.len() * (nin + 1) <= genes.len(),
        genes.subrange(at, at + l.len() * (nin + 1)) == flatten_layer(l),
    ensures
        decode_layer(nin, l.len(), genes, at) == l,
    decreases l.len(),
{
    lemma_flatten_layer_len(l, nin);
    if l.len() == 0 {
        assert(decode_layer(nin, 0, genes, at) =~= l);
    } else {
        let rest = l.drop_first();
        let step: int = nin as int + 1;
        assert(layer_wf_r(rest, nin));
        lemma_flatten_layer_len(rest, nin);
        assert((l.len() - 1) * step + step == l.len() * step) by (nonlinear_arith);
        // the first neuron occupies the first window
        assert(genes.subrange(at, at + step) =~= flatten_neuron(l.first())) by {
            assert forall|p: int| 0 <= p < step implies genes.subrange(at, at + step)[p]
                == flatten_neuron(l.first())[p] by {
                assert(genes.subrange(at, at + l.len() * step)[p] == flatten_layer(l)[p]);
            }
        }
        lemma_decode_neuron(l.first(), nin, genes, at);
        // the remaining neurons occupy the rest
        assert(genes.subrange(at + step, at + step + rest.len() * step) =~= flatten_layer(rest))
            by {
            assert forall|p: int| 0 <= p < rest.len() * step implies genes.subrange(
                at + step,
                at + step + rest.len() * step,
            )[p] == flatten_layer(rest)[p] by {
                assert(genes.subrange(at, at + l.len() * step)[p + step] == flatten_layer(l)[p
                    + step]);
                assert(flatten_layer(l)[p + step] == flatten_layer(rest)[p]);
            }
        }
        lemma_decode_layer(rest, nin, genes, at + step);
        assert(decode_layer(nin, l.len(), genes, at) =~= l) by {
            assert forall|j: int| 0 <= j < l.len() implies decode_layer(
                nin,
                l.len(),
                genes,
                at,
            )[j] == l[j] by {
                if j == 0 {
                    assert(decode_layer(nin, l.len(), genes, at)[0] == decode_neuron(
                        nin,
                        genes,
                        at,
                    ));
                } else {
                    assert(decode_layer(nin, rest.len(), genes, at + step)[j - 1]
                        == decode_neuron(nin, genes, at + step + (j - 1) * step));
                    assert(step + (j - 1) * step == j * step) by (nonlinear_arith);
                    assert(l[j] == rest[j - 1]);
                }
            }
        }
    }
}

/// Appending a neuron appends its genes.
proof fn lemma_flatten_layer_push(l: LayerRepr, n: NeuronRepr)
    ensures
        flatten_layer(l.push(n)) == flatten_layer(l) + flatten_neuron(n),
    decreases l.len(),
{
    if l.len() == 0 {
        assert(l.push(n).drop_first() =~= Seq::<NeuronRepr>::empty());
        assert(l.push(n).first() == n);
        assert(flatten_layer(Seq::<NeuronRepr>::empty()) == Seq::<i64>::empty());
        assert(flatten_layer(l.push(n)) == flatten_neuron(n) + Seq::<i64>::empty());
        assert(flatten_layer(l.push(n)) =~= flatten_layer(l) + flatten_neuron(n));
    } else {
        let rest = l.drop_first();
        assert(l.push(n).drop_first() =~= rest.push(n));
        assert(l.push(n).first() == l.first());
        lemma_flatten_layer_push(rest, n);
        assert(flatten_layer(l.push(n)) == flatten_neuron(l.first()) + flatten_layer(
            rest.push(n),
        ));
        assert(flatten_layer(l) == flatten_neuron(l.first()) + flatten_layer(rest));
        assert(flatten_neuron(l.first()) + (flatten_layer(rest) + flatten_neuron(n)) =~= (
        flatten_neuron(l.first()) + flatten_layer(rest)) + flatten_neuron(n));
    }
}

/// A well-formed layer writes genes within the representable magnitude.
pub proof fn lemma_flatten_layer_ok(l: LayerRepr, nin: nat)
    requires
        layer_wf_r(l, nin),
    ensures
        genes_ok(flatten_layer(l)),
    decreases l.len(),
{
    if l.len() > 0 {
        let rest = l.drop_first();
        assert(layer_wf_r(rest, nin)) by {
            assert(forall|j: int| 0 <= j < rest.len() ==> #[trigger] rest[j] == l[j + 1]);
        }
        lemma_flatten_layer_ok(rest, nin);
        let fn0 = flatten_neuron(l.first());
        assert(genes_ok(fn0)) by {
            assert forall|p: int| 0 <= p < fn0.len() implies crate::fx::fx_ok(
                #[trigger] fn0[p],
            ) by {
                if p == 0 {
                    assert(fn0[0] == l.first().1);
                } else {
                    assert(fn0[p] == l.first().0[p - 1]);
                }
            }
        }
        assert forall|p: int| 0 <= p < flatten_layer(l).len() implies crate::fx::fx_ok(
            #[trigger] flatten_layer(l)[p],
        ) by {
            if p < fn0.len() {
                assert(flatten_layer(l)[p] == fn0[p]);
            } else {
                assert(flatten_layer(l)[p] == flatten_layer(rest)[p - fn0.len()]);
            }
        }
    }
}

/// A layer: neurons sharing one input arity; its output arity is its neuron
/// count.
#[derive(Debug)]
pub struct Layer {
    neurons: Vec<Neuron>,
}

impl Layer {
    /// The mathematical model of this layer.
    pub closed spec fn repr(&self) -> LayerRepr {
        self.neurons@.map_values(|n: Neuron| n.repr())
    }

    pub fn new(neurons: Vec<Neuron>) -> (r: Layer)
        ensures
            r.repr() == neurons@.map_values(|n: Neuron| n.repr()),
    {
        Layer { neurons }
    }

    /// How many neurons, and so how many outputs, this layer has.
    pub fn neuron_count(&self) -> (r: usize)
        ensures
            r == self.repr().len(),
    {
        self.neurons.len()
    }

    /// A layer of `nout` random neurons of `nin` inputs each, sharing the
    /// given bias.
    pub fn new_random(rng: &mut RandomSource, nin: usize, nout: usize, bias: i64) -> (r: Layer)
        requires
            fx_ok(bias),
        ensures
            layer_wf_r(r.repr(), nin as nat),
            r.repr().len() == nout,
            forall|j: int| 0 <= j < nout ==> (#[trigger] r.repr()[j]).1 == bias,
            forall|j: int, k: int|
                0 <= j < nout && 0 <= k < nin ==> -FX_ONE <= #[trigger] r.repr()[j].0[k] <= FX_ONE,
    {
        let mut neurons: Vec<Neuron> = Vec::new();
        let mut j: usize = 0;
        while j < nout
            invariant
                0 <= j <= nout,
                fx_ok(bias),
                neurons@.len() == j,
                forall|k: int|
                    0 <= k < j ==> neuron_wf_r((#[trigger] neurons@[k]).repr())
                        && neurons@[k].repr().0.len() == nin && neurons@[k].repr().1 == bias,
                forall|k: int, m: int|
                    0 <= k < j && 0 <= m < nin ==> -FX_ONE <= #[trigger] neurons@[k].repr().0[m]
                        <= FX_ONE,
            decreases nout - j,
        {
            let neuron: Neuron = Neuron::new_random(rng, nin, bias);
            neurons.push(neuron);
            j = j + 1;
        }
        let r: Layer = Layer { neurons };
        proof {
            assert(forall|j2: int|
                0 <= j2 < nout ==> #[trigger] r.repr()[j2] == r.neurons@[j2].repr());
        }
        r
    }

    /// The layer decoded from `genes` at offset `at`: `nout` neurons in
    /// declaration order, each consuming one bias gene and `nin` weight
    /// genes.
    pub fn from_weight_and_biases(nin: usize, nout: usize, genes: &Chromosome, at: usize) -> (r:
        Layer)
        requires
            nin < usize::MAX,
            at + (nout as int) * (nin as int + 1) <= genes@.len(),
        ensures
            r.repr() == decode_layer(nin as nat, nout as nat, genes@, at as int),
            layer_wf_r(r.repr(), nin as nat),
            r.repr().len() == nout,
    {
        let glen: usize = genes.len();
        let step: usize = nin + 1;
        let mut neurons: Vec<Neuron> = Vec::new();
        let mut j: usize = 0;
        while j < nout
            invariant
                0 <= j <= nout,
                glen == genes@.len(),
                step == nin + 1,
                nin < usize::MAX,
                at + (nout as int) * (nin as int + 1) <= glen,
                neurons@.len() == j,
                forall|k: int|
                    0 <= k < j ==> (#[trigger] neurons@[k]).repr() == decode_neuron(
                        nin as nat,
                        genes@,
                        at + k * (nin as int + 1),
                    ),
                forall|k: int|
                    0 <= k < j ==> neuron_wf_r((#[trigger] neurons@[k]).repr())
                        && neurons@[k].repr().0.len() == nin,
            decreases nout - j,
        {
            proof {
                assert((j as int) * (nin as int + 1) <= (nout as int) * (nin as int + 1))
                    by (nonlinear_arith)
                    requires
                        0 <= j < nout,
                        0 <= nin,
                ;
                assert((j as int) * (nin as int + 1) + (nin as int + 1) == (j as int + 1) * (
                nin as int + 1)) by (nonlinear_arith);
                assert((j as int + 1) * (nin as int + 1) <= (nout as int) * (nin as int + 1))
                    by (nonlinear_arith)
                    requires
                        0 <= j + 1 <= nout,
                        0 <= nin,
                ;
            }
            let offset: usize = at + j * step;
            let neuron: Neuron = Neuron::from_weight_and_biases(nin, genes, offset);
            neurons.push(neuron);
            j = j + 1;
        }
        let r: Layer = Layer { neurons };
        proof {
            assert(forall|k: int|
                0 <= k < nout ==> #[trigger] r.repr()[k] == r.neurons@[k].repr());
            assert(r.repr() =~= decode_layer(nin as nat, nout as nat, genes@, at as int));
        }
        r
    }

    /// Append this layer's genes: each neuron's genes, in neuron order.
    pub fn append_genes(&self, out: &mut Vec<i64>)
        ensures
            final(out)@ == old(out)@ + flatten_layer(self.repr()),
    {
        let n: usize = self.neurons.len();
        let mut j: usize = 0;
        while j < n
            invariant
                0 <= j <= n,
                n == self.neurons@.len(),
                n == self.repr().len(),
                out@ == old(out)@ + flatten_layer(self.repr().take(j as int)),
            decreases n - j,
        {
            proof {
                assert(self.repr()[j as int] == self.neurons@[j as int].repr());
                assert(self.repr().take(j as int + 1) =~= self.repr().take(j as int).push(
                    self.repr()[j as int],
                ));
                lemma_flatten_layer_push(self.repr().take(j as int), self.repr()[j as int]);
            }
            self.neurons[j].append_genes(out);
            j = j + 1;
        }
        proof {
            assert(self.repr().take(n as int) =~= self.repr());
        }
    }

    /// Apply every neuron to the same input vector; one output per neuron,
    /// order preserved.
    pub fn forward(&self, inputs: &Vec<i64>) -> (r: Vec<i64>)
        requires
            layer_wf_r(self.repr(), inputs@.len() as nat),
            genes_ok(inputs@),
        ensures
            r@ == layer_out(self.repr(), inputs@),
            r@.len() == self.repr().len(),
            genes_ok(r@),
    {
        let n: usize = self.neurons.len();
        let mut out: Vec<i64> = Vec::new();
        let mut j: usize = 0;
        while j < n
            invariant
                0 <= j <= n,
                n == self.neurons@.len(),
                n == self.repr().len(),
                layer_wf_r(self.repr(), inputs@.len() as nat),
                genes_ok(inputs@),
                out@.len() == j,
                forall|k: int|
                    0 <= k < j ==> #[trigger] out@[k] == neuron_out(self.repr()[k], inputs@) as i64,
                forall|k: int| 0 <= k < j ==> fx_ok(#[trigger] out@[k]),
            decreases n - j,
        {
            proof {
                assert(self.repr()[j as int] == self.neurons@[j as int].repr());
            }
            let y: i64 = self.neurons[j].forward(inputs);
            out.push(y);
            j = j + 1;
        }
        proof {
            assert(out@ =~= layer_out(self.repr(), inputs@));
        }
        out
    }
}

} // verus!
