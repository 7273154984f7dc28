//! The multi-layer perceptron: layers threaded in order, and the bit-exact
//! encoding of all weights and biases into one flat gene sequence.

use vstd::prelude::*;
use crate::chromosome::{Chromosome, genes_ok};
use crate::errors::NetError;
use crate::fx::{FX_ONE, fx_ok};
use crate::layer::{
    Layer, LayerRepr, decode_layer, flatten_layer, layer_out, layer_wf_r, lemma_decode_layer,
    lemma_flatten_layer_len,
};
use crate::neuron::neuron_wf_r;
use crate::rng::RandomSource;

verus! {

/// The mathematical model of a network: its layers, in order.
pub type NetRepr = Seq<LayerRepr>;

/// The input arity of layer `k` in a network built for `nin` inputs with the
/// given layer sizes: the previous layer's size, or `nin` for the first.
pub open spec fn arity_at(nin: nat, nouts: Seq<usize>, k: int) -> nat {
    if k == 0 {
        nin
    } else {
        nouts[k - 1] as nat
    }
}

/// The network has exactly the given layer sizes, each layer well formed and
/// consuming the previous layer's outputs.
pub open spec fn net_shape(ls: NetRepr, nin: nat, nouts: Seq<usize>) -> bool {
    &&& ls.len() == nouts.len()
    &&& forall|k: int|
        0 <= k < ls.len() ==> layer_wf_r(#[trigger] ls[k], arity_at(nin, nouts, k)) && ls[k].len()
            == nouts[k]
}

/// Every weight of every neuron lies within one unit, as uniform random
/// initialization draws them.
pub open spec fn net_weights_within_unit(ls: NetRepr) -> bool {
    forall|k: int, j: int, m: int|
        0 <= k < ls.len() && 0 <= j < ls[k].len() && 0 <= m < ls[k][j].0.len() ==> -FX_ONE
            <= #[trigger] ls[k][j].0[m] <= FX_ONE
}

/// Layer arities chain: the first layer takes `nin` inputs and each later
/// layer takes the previous layer's outputs.
pub open spec fn net_wf_chain(ls: NetRepr, nin: nat) -> bool {
    forall|k: int|
        0 <= k < ls.len() ==> layer_wf_r(
            #[trigger] ls[k],
            if k == 0 {
                nin
            } else {
                ls[k - 1].len()
            },
        )
}

/// A shaped network's arities chain.
pub proof fn lemma_shape_implies_chain(ls: NetRepr, nin: nat, nouts: Seq<usize>)
    requires
        net_shape(ls, nin, nouts),
    ensures
        net_wf_chain(ls, nin),
{
}

/// What a network returns: the input vector threaded through every layer in
/// order.
pub open spec fn net_out(ls: NetRepr, x: Seq<i64>) -> Seq<i64>
    decreases ls.len(),
{
    if ls.len() == 0 {
        x
    } else {
        net_out(ls.drop_first(), layer_out(ls.first(), x))
    }
}

/// The genes a network writes: each layer's genes, in layer order.
pub open spec fn flatten_net(ls: NetRepr) -> Seq<i64>
    decreases ls.len(),
{
    if ls.len() == 0 {
        Seq::empty()
    } else {
        flatten_layer(ls.first()) + flatten_net(ls.drop_first())
    }
}

/// How many genes a network of the given topology consumes.
pub open spec fn needed_genes(nin: nat, nouts: Seq<usize>) -> int
    decreases nouts.len(),
{
    if nouts.len() == 0 {
        0
    } else {
        (nouts.first() as int) * (nin + 1) + needed_genes(nouts.first() as nat, nouts.drop_first())
    }
}

/// The network read back from `genes` at offset `at`, layer by layer.
pub open spec fn decode_net(nin: nat, nouts: Seq<usize>, genes: Seq<i64>, at: int) -> NetRepr
    decreases nouts.len(),
{
    if nouts.len() == 0 {
        Seq::empty()
    } else {
        seq![decode_layer(nin, nouts.first() as nat, genes, at)] + decode_net(
            nouts.first() as nat,
            nouts.drop_first(),
            genes,
            at + (nouts.first() as int) * (nin + 1),
        )
    }
}

/// A topology never consumes a negative number of genes.
pub proof fn lemma_needed_nonneg(nin: nat, nouts: Seq<usize>)
    ensures
        needed_genes(nin, nouts) >= 0,
        nouts.len() > 0 ==> needed_genes(nin, nouts) >= (nouts.first() as int) * (nin + 1),
        nouts.len() > 0 ==> (nouts.first() as int) * (nin + 1) >= 0,
    decreases nouts.len(),
{
    if nouts.len() > 0 {
        lemma_needed_nonneg(nouts.first() as nat, nouts.drop_first());
        assert((nouts.first() as int) * (nin + 1) >= 0) by (nonlinear_arith);
    }
}

/// A shaped network writes exactly the genes its topology consumes.
pub proof fn lemma_flatten_net_len(ls: NetRepr, nin: nat, nouts: Seq<usize>)
    requires
        net_shape(ls, nin, nouts),
    ensures
        flatten_net(ls).len() == needed_genes(nin, nouts),
    decreases ls.len(),
{
    if ls.len() > 0 {
        let rest = ls.drop_first();
        assert(layer_wf_r(ls.first(), nin) && ls.first().len() == nouts.first());
        lemma_flatten_layer_len(ls.first(), nin);
        assert(net_shape(rest, nouts.first() as nat, nouts.drop_first())) by {
            assert(forall|k: int|
                0 <= k < rest.len() ==> #[trigger] rest[k] == ls[k + 1]);
        }
        lemma_flatten_net_len(rest, nouts.first() as nat, nouts.drop_first());
    }
}

/// Reading back what a network wrote reproduces the network exactly.
pub proof fn lemma_decode_net(ls: NetRepr, nin: nat, nouts: Seq<usize>, genes: Seq<i64>, at: int)
    requires
        net_shape(ls, nin, nouts),
        0 <= at,
        at + flatten_net(ls).len() <= genes.len(),
        genes.subrange(at, at + flatten_net(ls).len()) == flatten_net(ls),
    ensures
        decode_net(nin, nouts, genes, at) == ls,
    decreases ls.len(),
{
    lemma_flatten_net_len(ls, nin, nouts);
    if ls.len() == 0 {
        assert(decode_net(nin, nouts, genes, at) =~= ls);
    } else {
        let first = ls.first();
        let rest = ls.drop_first();
        let step: int = (nouts.first() as int) * (nin + 1);
        assert(layer_wf_r(first, nin) && first.len() == nouts.first());
        lemma_flatten_layer_len(first, nin);
        assert(net_shape(rest, nouts.first() as nat, nouts.drop_first())) by {
            assert(forall|k: int|
                0 <= k < rest.len() ==> #[trigger] rest[k] == ls[k + 1]);
        }
        lemma_flatten_net_len(rest, nouts.first() as nat, nouts.drop_first());
        lemma_needed_nonneg(nouts.first() as nat, nouts.drop_first());
        // the first layer occupies the first window
        assert(genes.subrange(at, at + step) =~= flatten_layer(first)) by {
            assert forall|p: int| 0 <= p < step implies genes.subrange(at, at + step)[p]
                == flatten_layer(first)[p] by {
                assert(genes.subrange(at, at + flatten_net(ls).len())[p] == flatten_net(ls)[p]);
            }
        }
        lemma_decode_layer(first, nin, genes, at);
        // the remaining layers occupy the rest
        let rlen: int = flatten_net(rest).len() as int;
        assert(genes.subrange(at + step, at + step + rlen) =~= flatten_net(rest)) by {
            assert forall|p: int| 0 <= p < rlen implies genes.subrange(
                at + step,
                at + step + rlen,
            )[p] == flatten_net(rest)[p] by {
                assert(genes.subrange(at, at + flatten_net(ls).len())[p + step] == flatten_net(
                    ls,
                )[p + step]);
                assert(flatten_net(ls)[p + step] == flatten_net(rest)[p]);
            }
        }
        lemma_decode_net(rest, nouts.first() as nat, nouts.drop_first(), genes, at + step);
        assert(decode_net(nin, nouts, genes, at) =~= ls) by {
            assert(ls =~= seq![first] + rest);
        }
    }
}

/// Decoding a chromosome that covers the topology yields a shaped network.
pub proof fn lemma_decode_net_shape(nin: nat, nouts: Seq<usize>, genes: Seq<i64>, at: int)
    requires
        0 <= at,
        at + needed_genes(nin, nouts) <= genes.len(),
        genes_ok(genes),
    ensures
        net_shape(decode_net(nin, nouts, genes, at), nin, nouts),
    decreases nouts.len(),
{
    if nouts.len() > 0 {
        let nout0: nat = nouts.first() as nat;
        let step: int = (nouts.first() as int) * (nin + 1);
        lemma_needed_nonneg(nin, nouts);
        lemma_needed_nonneg(nout0, nouts.drop_first());
        lemma_decode_net_shape(nout0, nouts.drop_first(), genes, at + step);
        let l0 = decode_layer(nin, nout0, genes, at);
        assert(layer_wf_r(l0, nin)) by {
            assert forall|j: int| 0 <= j < l0.len() implies neuron_wf_r(#[trigger] l0[j])
                && l0[j].0.len() == nin by {
                assert(0 <= j * (nin + 1) && j * (nin + 1) + (nin + 1) <= step)
                    by (nonlinear_arith)
                    requires
                        0 <= j < nout0,
                        0 <= nin,
                        step == (nout0 as int) * (nin + 1),
                ;
                let off: int = at + j * (nin + 1);
                assert(l0[j] == crate::neuron::decode_neuron(nin, genes, off));
                assert(genes_ok(l0[j].0)) by {
                    assert forall|m: int| 0 <= m < l0[j].0.len() implies fx_ok(
                        #[trigger] l0[j].0[m],
                    ) by {
                        assert(l0[j].0[m] == genes[off + 1 + m]);
                    }
                }
                assert(fx_ok(genes[off]));
            }
        }
        let whole = decode_net(nin, nouts, genes, at);
        let rest = decode_net(nout0, nouts.drop_first(), genes, at + step);
        assert forall|k: int|
            0 <= k < whole.len() implies layer_wf_r(#[trigger] whole[k], arity_at(nin, nouts, k))
            && whole[k].len() == nouts[k] by {
            if k == 0 {
                assert(whole[0] == l0);
            } else {
                assert(whole[k] == rest[k - 1]);
                assert(arity_at(nout0, nouts.drop_first(), k - 1) == arity_at(nin, nouts, k));
                assert(nouts.drop_first()[k - 1] == nouts[k]);
            }
        }
    }
}

/// A shaped network writes genes within the representable magnitude.
pub proof fn lemma_flatten_net_ok(ls: NetRepr, nin: nat, nouts: Seq<usize>)
    requires
        net_shape(ls, nin, nouts),
    ensures
        genes_ok(flatten_net(ls)),
    decreases ls.len(),
{
    if ls.len() > 0 {
        let rest = ls.drop_first();
        assert(net_shape(rest, nouts.first() as nat, nouts.drop_first())) by {
            assert(forall|k: int| 0 <= k < rest.len() ==> #[trigger] rest[k] == ls[k + 1]);
        }
        lemma_flatten_net_ok(rest, nouts.first() as nat, nouts.drop_first());
        crate::layer::lemma_flatten_layer_ok(ls.first(), nin);
        let f0 = flatten_layer(ls.first());
        assert forall|p: int| 0 <= p < flatten_net(ls).len() implies crate::fx::fx_ok(
            #[trigger] flatten_net(ls)[p],
        ) by {
            if p < f0.len() {
                assert(flatten_net(ls)[p] == f0[p]);
            } else {
                assert(flatten_net(ls)[p] == flatten_net(rest)[p - f0.len()]);
            }
        }
    }
}

/// A chained network turns a well-sized input vector into a vector of one
/// output per final-layer neuron, each within the representable magnitude.
pub proof fn lemma_net_out_ok(ls: NetRepr, nin: nat, x: Seq<i64>)
    requires
        net_wf_chain(ls, nin),
        x.len() == nin,
        genes_ok(x),
    ensures
        genes_ok(net_out(ls, x)),
        net_out(ls, x).len() == (if ls.len() == 0 {
            x.len() as int
        } else {
            ls.last().len() as int
        }),
    decreases ls.len(),
{
    if ls.len() > 0 {
        let first = ls.first();
        let rest = ls.drop_first();
        let y = layer_out(first, x);
        assert(genes_ok(y)) by {
            assert forall|j: int| 0 <= j < y.len() implies crate::fx::fx_ok(
                #[trigger] y[j],
            ) by {
                assert(y[j] == crate::neuron::neuron_out(first[j], x) as i64);
            }
        }
        assert(net_wf_chain(rest, first.len())) by {
            assert(forall|k: int| 0 <= k < rest.len() ==> #[trigger] rest[k] == ls[k + 1]);
        }
        lemma_net_out_ok(rest, first.len(), y);
        if rest.len() > 0 {
            assert(rest.last() == ls.last());
        }
    }
}

/// The round-trip law of the codec: decoding the genes a network writes
/// reproduces the network exactly, and so reproduces its forward outputs on
/// every input.
pub proof fn lemma_codec_round_trip(ls: NetRepr, nin: nat, nouts: Seq<usize>)
    requires
        net_shape(ls, nin, nouts),
    ensures
        decode_net(nin, nouts, flatten_net(ls), 0) == ls,
        forall|x: Seq<i64>|
            net_out(#[trigger] decode_net(nin, nouts, flatten_net(ls), 0), x) == net_out(ls, x),
{
    let genes = flatten_net(ls);
    assert(genes.subrange(0, genes.len() as int) =~= genes);
    lemma_decode_net(ls, nin, nouts, genes, 0);
}

/// Appending a layer appends its genes.
proof fn lemma_flatten_net_push(ls: NetRepr, l: LayerRepr)
    ensures
        flatten_net(ls.push(l)) == flatten_net(ls) + flatten_layer(l),
    decreases ls.len(),
{
    if ls.len() == 0 {
        assert(ls.push(l).drop_first() =~= Seq::<LayerRepr>::empty());
        assert(ls.push(l).first() == l);
        assert(flatten_net(Seq::<LayerRepr>::empty()) == Seq::<i64>::empty());
        assert(flatten_net(ls.push(l)) == flatten_layer(l) + Seq::<i64>::empty());
        assert(flatten_net(ls.push(l)) =~= flatten_net(ls) + flatten_layer(l));
    } else {
        let rest = ls.drop_first();
        assert(ls.push(l).drop_first() =~= rest.push(l));
        assert(ls.push(l).first() == ls.first());
        lemma_flatten_net_push(rest, l);
        assert(flatten_net(ls.push(l)) == flatten_layer(ls.first()) + flatten_net(rest.push(l)));
        assert(flatten_net(ls) == flatten_layer(ls.first()) + flatten_net(rest));
        assert(flatten_layer(ls.first()) + (flatten_net(rest) + flatten_layer(l)) =~= (
        flatten_layer(ls.first()) + flatten_net(rest)) + flatten_layer(l));
    }
}

/// A feedforward network: layers applied in order, layer `i`'s outputs
/// feeding layer `i + 1`.
#[derive(Debug)]
pub struct MLP {
    layers: Vec<Layer>,
}

impl MLP {
    /// The mathematical model of this network.
    pub closed spec fn repr(&self) -> NetRepr {
        self.layers@.map_values(|l: Layer| l.repr())
    }

    pub fn new(layers: Vec<Layer>) -> (r: MLP)
        ensures
            r.repr() == layers@.map_values(|l: Layer| l.repr()),
    {
        MLP { layers }
    }

    /// A network of the given topology with uniform random weights in
    /// `[-1, 1]` and the given bias everywhere.
    pub fn new_random(rng: &mut RandomSource, nin: usize, nouts: &Vec<usize>, bias: i64) -> (r:
        MLP)
        requires
            fx_ok(bias),
        ensures
            net_shape(r.repr(), nin as nat, nouts@),
            forall|k: int, j: int|
                0 <= k < nouts@.len() && 0 <= j < nouts@[k] ==> (#[trigger] r.repr()[k][j]).1
                    == bias,
            net_weights_within_unit(r.repr()),
    {
        let n: usize = nouts.len();
        let mut layers: Vec<Layer> = Vec::new();
        let mut cur_in: usize = nin;
        let mut k: usize = 0;
        while k < n
            invariant
                0 <= k <= n,
                n == nouts@.len(),
                fx_ok(bias),
                layers@.len() == k,
                cur_in as nat == arity_at(nin as nat, nouts@, k as int),
                forall|k2: int|
                    0 <= k2 < k ==> layer_wf_r(
                        (#[trigger] layers@[k2]).repr(),
                        arity_at(nin as nat, nouts@, k2),
                    ) && layers@[k2].repr().len() == nouts@[k2],
                forall|k2: int, j: int|
                    0 <= k2 < k && 0 <= j < nouts@[k2] ==> (#[trigger] layers@[k2].repr()[j]).1
                        == bias,
                forall|k2: int, j: int, m: int|
                    0 <= k2 < k && 0 <= j < layers@[k2].repr().len() && 0 <= m
                        < layers@[k2].repr()[j].0.len() ==> -FX_ONE
                        <= #[trigger] layers@[k2].repr()[j].0[m] <= FX_ONE,
            decreases n - k,
        {
            let nout: usize = nouts[k];
            let layer: Layer = Layer::new_random(rng, cur_in, nout, bias);
            layers.push(layer);
            cur_in = nout;
            k = k + 1;
        }
        let r: MLP = MLP { layers };
        proof {
            assert(forall|k2: int|
                0 <= k2 < n ==> #[trigger] r.repr()[k2] == r.layers@[k2].repr());
        }
        r
    }

    /// The network decoded from a chromosome: for each layer in declaration
    /// order, for each neuron in declaration order, one bias gene then the
    /// weight genes. Fails exactly where the chromosome is shorter than the
    /// topology consumes; excess genes are ignored.
    pub fn from_weight_and_biases(nin: usize, nouts: &Vec<usize>, genes: &Chromosome) -> (r:
        Result<MLP, NetError>)
        requires
            nin < usize::MAX,
            forall|k: int| 0 <= k < nouts@.len() ==> #[trigger] nouts@[k] < usize::MAX,
            needed_genes(nin as nat, nouts@) <= usize::MAX,
        ensures
            match r {
                Ok(m) => {
                    &&& genes@.len() >= needed_genes(nin as nat, nouts@)
                    &&& m.repr() == decode_net(nin as nat, nouts@, genes@, 0)
                    &&& net_shape(m.repr(), nin as nat, nouts@)
                },
                Err(e) => {
                    &&& e == NetError::InsufficientGenes
                    &&& genes@.len() < needed_genes(nin as nat, nouts@)
                },
            },
    {
        let n: usize = nouts.len();
        let glen: usize = genes.len();

        // how many genes this topology consumes
        proof {
            assert(nouts@.skip(0) =~= nouts@);
        }
        let mut needed: usize = 0;
        let mut cur_in: usize = nin;
        let mut k: usize = 0;
        while k < n
            invariant
                0 <= k <= n,
                n == nouts@.len(),
                nin < usize::MAX,
                forall|k2: int| 0 <= k2 < n ==> #[trigger] nouts@[k2] < usize::MAX,
                cur_in as nat == arity_at(nin as nat, nouts@, k as int),
                needed + needed_genes(cur_in as nat, nouts@.skip(k as int)) == needed_genes(
                    nin as nat,
                    nouts@,
                ),
                needed_genes(nin as nat, nouts@) <= usize::MAX,
            decreases n - k,
        {
            let ghost tail: Seq<usize> = nouts@.skip(k as int);
            proof {
                assert(tail.first() == nouts@[k as int]);
                assert(tail.drop_first() =~= nouts@.skip(k as int + 1));
                lemma_needed_nonneg(cur_in as nat, tail);
                lemma_needed_nonneg(nouts@[k as int] as nat, nouts@.skip(k as int + 1));
            }
            let nout: usize = nouts[k];
            let t: usize = nout * (cur_in + 1);
            needed = needed + t;
            cur_in = nout;
            k = k + 1;
        }
        proof {
            assert(nouts@.skip(n as int) =~= Seq::<usize>::empty());
        }
        if glen < needed {
            return Err(NetError::InsufficientGenes);
        }

        // decode, layer by layer
        proof {
            use_type_invariant(genes);
        }
        let mut layers: Vec<Layer> = Vec::new();
        let mut pos: usize = 0;
        proof {
            assert(nouts@.skip(0) =~= nouts@);
            assert(layers@.map_values(|l: Layer| l.repr()) =~= Seq::<LayerRepr>::empty());
            assert(Seq::<LayerRepr>::empty() + decode_net(nin as nat, nouts@, genes@, 0)
                =~= decode_net(nin as nat, nouts@, genes@, 0));
        }
        let mut cur2: usize = nin;
        let mut k2: usize = 0;
        while k2 < n
            invariant
                0 <= k2 <= n,
                n == nouts@.len(),
                nin < usize::MAX,
                glen == genes@.len(),
                genes_ok(genes@),
                forall|k3: int| 0 <= k3 < n ==> #[trigger] nouts@[k3] < usize::MAX,
                cur2 as nat == arity_at(nin as nat, nouts@, k2 as int),
                layers@.len() == k2,
                pos + needed_genes(cur2 as nat, nouts@.skip(k2 as int)) <= glen,
                decode_net(nin as nat, nouts@, genes@, 0) == layers@.map_values(
                    |l: Layer| l.repr(),
                ) + decode_net(cur2 as nat, nouts@.skip(k2 as int), genes@, pos as int),
            decreases n - k2,
        {
            let ghost tail: Seq<usize> = nouts@.skip(k2 as int);
            let ghost built: Seq<LayerRepr> = layers@.map_values(|l: Layer| l.repr());
            proof {
                assert(tail.first() == nouts@[k2 as int]);
                assert(tail.drop_first() =~= nouts@.skip(k2 as int + 1));
                lemma_needed_nonneg(nouts@[k2 as int] as nat, nouts@.skip(k2 as int + 1));
            }
            let nout: usize = nouts[k2];
            let layer: Layer = Layer::from_weight_and_biases(cur2, nout, genes, pos);
            let step: usize = nout * (cur2 + 1);
            proof {
                let lseq = layers@.push(layer);
                assert(lseq.map_values(|l: Layer| l.repr()) =~= built.push(layer.repr()));
                assert(built.push(layer.repr()) + decode_net(
                    nout as nat,
                    nouts@.skip(k2 as int + 1),
                    genes@,
                    pos + step,
                ) =~= built + (seq![layer.repr()] + decode_net(
                    nout as nat,
                    nouts@.skip(k2 as int + 1),
                    genes@,
                    pos + step,
                )));
            }
            layers.push(layer);
            pos = pos + step;
            cur2 = nout;
            k2 = k2 + 1;
        }
        proof {
            assert(nouts@.skip(n as int) =~= Seq::<usize>::empty());
            let built = layers@.map_values(|l: Layer| l.repr());
            assert(built + Seq::<LayerRepr>::empty() =~= built);
            lemma_decode_net_shape(nin as nat, nouts@, genes@, 0);
        }
        let r: MLP = MLP { layers };
        Ok(r)
    }

    /// Thread the input vector through every layer in order and return the
    /// final layer's outputs.
    pub fn forward(&self, inputs: Vec<i64>) -> (r: Vec<i64>)
        requires
            net_wf_chain(self.repr(), inputs@.len() as nat),
            genes_ok(inputs@),
        ensures
            r@ == net_out(self.repr(), inputs@),
            genes_ok(r@),
    {
        let n: usize = self.layers.len();
        let ghost x0: Seq<i64> = inputs@;
        let ghost whole: NetRepr = self.repr();
        proof {
            assert(whole.skip(0) =~= whole);
        }
        let mut cur: Vec<i64> = inputs;
        let mut k: usize = 0;
        while k < n
            invariant
                0 <= k <= n,
                n == self.layers@.len(),
                whole == self.repr(),
                whole.len() == n,
                net_wf_chain(whole, x0.len() as nat),
                genes_ok(cur@),
                net_out(whole, x0) == net_out(whole.skip(k as int), cur@),
                k < n ==> layer_wf_r(whole[k as int], cur@.len() as nat),
            decreases n - k,
        {
            let ghost tail: NetRepr = whole.skip(k as int);
            proof {
                assert(whole[k as int] == self.layers@[k as int].repr());
                assert(tail.first() == whole[k as int]);
                assert(tail.drop_first() =~= whole.skip(k as int + 1));
            }
            let next: Vec<i64> = self.layers[k].forward(&cur);
            proof {
                assert(net_out(tail, cur@) == net_out(whole.skip(k as int + 1), next@));
            }
            cur = next;
            k = k + 1;
        }
        proof {
            assert(whole.skip(n as int) =~= Seq::<LayerRepr>::empty());
        }
        cur
    }

    /// All weights and biases, flattened in the identical order the decoder
    /// consumes: for each layer, for each neuron, the bias then the weights.
    pub fn weights_and_biases(&self) -> (r: Vec<i64>)
        ensures
            r@ == flatten_net(self.repr()),
    {
        let n: usize = self.layers.len();
        let mut out: Vec<i64> = Vec::new();
        let mut k: usize = 0;
        while k < n
            invariant
                0 <= k <= n,
                n == self.layers@.len(),
                out@ == flatten_net(self.repr().take(k as int)),
            decreases n - k,
        {
            proof {
                assert(self.repr()[k as int] == self.layers@[k as int].repr());
                assert(self.repr().take(k as int + 1) =~= self.repr().take(k as int).push(
                    self.repr()[k as int],
                ));
                lemma_flatten_net_push(self.repr().take(k as int), self.repr()[k as int]);
            }
            self.layers[k].append_genes(&mut out);
            k = k + 1;
        }
        proof {
            assert(self.repr().take(n as int) =~= self.repr());
        }
        out
    }
}

} // verus!
