//! The neural network evaluator: forward passes and the flatten/decode
//! round trip, on fixed-point scalars (1 unit = 65536 steps).

use neuroevolution::chromosome::Chromosome;
use neuroevolution::errors::NetError;
use neuroevolution::fx::FX_ONE;
use neuroevolution::layer::Layer;
use neuroevolution::mlp::MLP;
use neuroevolution::neuron::Neuron;
use neuroevolution::rng::RandomSource;

const S: i64 = FX_ONE;

#[test]
fn test_forward() {
    // weights [2, 4], bias 0, inputs [3, 5]: 2*3 + 4*5 = 26
    let neuron = Neuron::new(vec![2 * S, 4 * S], 0);
    assert_eq!(neuron.forward(&vec![3 * S, 5 * S]), 26 * S);
}

#[test]
fn neuron_relu_floors_negative_preactivation() {
    // bias one, negated pre-activation: relu(-26 + 1) = 0
    let neuron = Neuron::new(vec![2 * S, 4 * S], S);
    assert_eq!(neuron.forward(&vec![-3 * S, -5 * S]), 0);
}

#[test]
fn test_relu() {
    let neuron = Neuron::new(vec![S / 2], 0);
    assert_eq!(neuron.forward(&vec![-3 * S]), 0);
    assert_eq!(neuron.forward(&vec![0]), 0);
    assert_eq!(neuron.forward(&vec![4 * S]), 2 * S);
}

#[test]
fn layer_test_forward() {
    let layer = Layer::new(vec![
        Neuron::new(vec![2 * S, 4 * S], 0),
        Neuron::new(vec![S, 2 * S], S),
    ]);
    let out = layer.forward(&vec![3 * S, 5 * S]);
    assert_eq!(out, vec![26 * S, 14 * S]);
}

#[test]
fn mlp_test_forward() {
    let layer0 = Layer::new(vec![
        Neuron::new(vec![2 * S, 4 * S], 0),
        Neuron::new(vec![S, 2 * S], S),
    ]);
    let layer1 = Layer::new(vec![Neuron::new(vec![S / 2, -S / 2], 6553)]);
    let mlp = MLP::new(vec![layer0, layer1]);
    // layer 0 gives [26, 14]; layer 1 gives 26/2 - 14/2 + 0.1
    let out = mlp.forward(vec![3 * S, 5 * S]);
    assert_eq!(out, vec![6 * S + 6553]);
}

#[test]
fn neuron_decodes_bias_then_weights() {
    let genes = Chromosome::new(vec![0, 2 * S, 3 * S, 4 * S]);
    let neuron = Neuron::from_weight_and_biases(2, &genes, 1);
    // bias 2, weights [3, 4], inputs [1, 1]: 3 + 4 + 2 = 9
    assert_eq!(neuron.forward(&vec![S, S]), 9 * S);
}

#[test]
fn round_trip_reproduces_genes_and_outputs() {
    let layer0 = Layer::new(vec![
        Neuron::new(vec![2 * S, -4 * S], 7),
        Neuron::new(vec![S / 4, 2 * S], -S),
        Neuron::new(vec![-3, 5], 123),
    ]);
    let layer1 = Layer::new(vec![Neuron::new(vec![S / 2, -S / 2, S], 6553)]);
    let mlp = MLP::new(vec![layer0, layer1]);

    let genes = Chromosome::new(mlp.weights_and_biases());
    assert_eq!(genes.len(), 3 * 3 + 1 * 4);

    let decoded = MLP::from_weight_and_biases(2, &vec![3, 1], &genes).unwrap();
    assert_eq!(decoded.weights_and_biases(), mlp.weights_and_biases());

    for inputs in [vec![0, 0], vec![S, -S], vec![3 * S, 5 * S], vec![-7, 11]] {
        assert_eq!(decoded.forward(inputs.clone()), mlp.forward(inputs));
    }
}

#[test]
fn decoding_ignores_excess_genes() {
    let mut genes = vec![5, 6 * S, 7, -8, 9];
    let exact = MLP::from_weight_and_biases(1, &vec![2], &Chromosome::new(genes.clone())).unwrap();
    genes.push(42 * S);
    genes.push(-S);
    let padded = MLP::from_weight_and_biases(1, &vec![2], &Chromosome::new(genes)).unwrap();
    assert_eq!(exact.weights_and_biases(), padded.weights_and_biases());
}

#[test]
fn decoding_a_short_chromosome_fails() {
    // one neuron of two inputs needs three genes
    let genes = Chromosome::new(vec![S, S]);
    let r = MLP::from_weight_and_biases(2, &vec![1], &genes);
    assert_eq!(r.unwrap_err(), NetError::InsufficientGenes);
}

#[test]
fn test_new_random() {
    let mut rng = RandomSource::seeded(7);
    let mlp = MLP::new_random(&mut rng, 1, &vec![3, 2], S);
    let genes = mlp.weights_and_biases();
    // 3 neurons of (1 + 1) genes, then 2 neurons of (3 + 1) genes
    assert_eq!(genes.len(), 14);
    // biases sit first in each neuron's block and keep the given value
    for bias_at in [0, 2, 4, 6, 10] {
        assert_eq!(genes[bias_at], S);
    }
    // every weight was drawn from [-1, 1]
    for g in genes {
        assert!(-S <= g && g <= S);
    }
}

#[test]
fn test_random_weights() {
    let mut rng = RandomSource::seeded(11);
    let neuron = Neuron::new_random(&mut rng, 3, 655);
    // bias kept, three in-range weights: probe through forward passes
    assert_eq!(neuron.forward(&vec![0, 0, 0]), 655);
    let mut rng2 = RandomSource::seeded(12);
    let layer = Layer::new_random(&mut rng2, 1, 3, 0);
    assert_eq!(layer.neuron_count(), 3);
    let out = layer.forward(&vec![S]);
    assert_eq!(out.len(), 3);
    for v in out {
        // relu of a weight in [-1, 1]
        assert!(0 <= v && v <= S);
    }
}
