//! The genetic operators and the generation engine.

use neuroevolution::chromosome::Chromosome;
use neuroevolution::crossover::{Crossover, UniformCrossover};
use neuroevolution::errors::GaError;
use neuroevolution::fx::{FX_MAX, FX_ONE};
use neuroevolution::genetic_algorithm::GeneticAlgorithm;
use neuroevolution::individual::{Individual, TestIndividual};
use neuroevolution::mutation::{GaussianMutation, Mutation};
use neuroevolution::rng::RandomSource;
use neuroevolution::selection::{FitnessProportionateSelection, Selection, pick_weighted};

const S: i64 = FX_ONE;

fn constant_chromosome(gene: i64, len: usize) -> Chromosome {
    Chromosome::new(vec![gene; len])
}

#[test]
fn chromosome_access() {
    let c = Chromosome::new(vec![3, -5, 7]);
    assert_eq!(c.len(), 3);
    assert_eq!(c.get(0), 3);
    assert_eq!(c.get(1), -5);
    assert_eq!(c.get(2), 7);
}

#[test]
fn test_cross() {
    let mut rng = RandomSource::seeded(1);
    let crosser = UniformCrossover::new();
    let a = constant_chromosome(S, 50);
    let b = constant_chromosome(-S, 50);

    // every gene comes from one parent; over many draws the gene sums
    // spread symmetrically around zero
    let mut total: i64 = 0;
    let mut from_a: i64 = 0;
    for _ in 0..200 {
        let child = crosser.cross(&mut rng, &a, &b).unwrap();
        assert_eq!(child.len(), 50);
        let mut sum: i64 = 0;
        for i in 0..child.len() {
            let g = child.get(i);
            assert!(g == S || g == -S);
            if g == S {
                from_a += 1;
            }
            sum += g;
        }
        total += sum;
    }
    // both parents contribute
    assert!(from_a > 0 && from_a < 200 * 50);
    // the mean sum stays near zero (within two units per cross)
    assert!(total.abs() / 200 < 2 * S);
}

#[test]
fn test_different_chromosome_length() {
    let mut rng = RandomSource::seeded(1);
    let crosser = UniformCrossover::new();
    let a = constant_chromosome(S, 2);
    let b = constant_chromosome(-S, 3);
    assert_eq!(crosser.cross(&mut rng, &a, &b).unwrap_err(), GaError::LengthMismatch);
}

fn mutation_result(rate: i64, strength: i64) -> Chromosome {
    let mut rng = RandomSource::seeded(2);
    let mutator = GaussianMutation::new(rate, strength);
    let chromosome = constant_chromosome(0, 10);
    mutator.mutate(&mut rng, &chromosome)
}

fn assert_all_zero(c: &Chromosome) {
    assert_eq!(c.len(), 10);
    for i in 0..c.len() {
        assert_eq!(c.get(i), 0);
    }
}

#[test]
fn zero_mutation_strength() {
    // whatever the rate, a zero strength changes nothing
    assert_all_zero(&mutation_result(0, 0));
    assert_all_zero(&mutation_result(S / 2, 0));
    assert_all_zero(&mutation_result(S, 0));
}

#[test]
fn non_zero_mutation_strength() {
    // a zero rate changes nothing even at full strength
    assert_all_zero(&mutation_result(0, 3 * S));
    // full rate and strength moves at least one of ten genes almost surely
    let moved = mutation_result(S, 3 * S);
    let mut changed = 0;
    for i in 0..moved.len() {
        if moved.get(i) != 0 {
            changed += 1;
        }
        // each nudge is a bell sample in [-6, 6] scaled by 3
        assert!(moved.get(i).abs() <= 18 * S);
    }
    assert!(changed > 0);
}

#[test]
fn mutation_identity_on_arbitrary_genes() {
    let mut rng = RandomSource::seeded(3);
    let genes = Chromosome::new(vec![7, -S, FX_MAX, -FX_MAX, 0, 12345]);
    let mutator = GaussianMutation::new(0, 5 * S);
    let out = mutator.mutate(&mut rng, &genes);
    assert_eq!(out.len(), genes.len());
    for i in 0..genes.len() {
        assert_eq!(out.get(i), genes.get(i));
    }
}

fn fitness_population() -> Vec<TestIndividual> {
    vec![
        TestIndividual::from_fitness(S),
        TestIndividual::from_fitness(2 * S),
        TestIndividual::from_fitness(4 * S),
        TestIndividual::from_fitness(0),
    ]
}

#[test]
fn select_multiple() {
    let mut rng = RandomSource::seeded(4);
    let selector = FitnessProportionateSelection::new();
    let population = fitness_population();
    let selected = selector.select(&mut rng, &population, 1000).unwrap();
    assert_eq!(selected.len(), 1000);
    let mut counts = [0i64; 3];
    for ind in selected {
        match ind.fitness() {
            f if f == S => counts[0] += 1,
            f if f == 2 * S => counts[1] += 1,
            f if f == 4 * S => counts[2] += 1,
            // the zero-fitness individual is never selected
            other => panic!("selected fitness {}", other),
        }
    }
    assert_eq!(counts[0] + counts[1] + counts[2], 1000);
    // frequency grows with fitness, roughly in proportion
    assert!(counts[2] > counts[1] && counts[1] > counts[0]);
    assert!(counts[2] > 2 * counts[0]);
}

#[test]
fn select_single() {
    let mut rng = RandomSource::seeded(5);
    let selector = FitnessProportionateSelection::new();
    let population = fitness_population();
    for _ in 0..100 {
        let selected = selector.select(&mut rng, &population, 1).unwrap();
        assert_eq!(selected.len(), 1);
        assert!(selected[0].fitness() > 0);
    }
}

#[test]
fn selection_rejects_zero_fitness_total() {
    let mut rng = RandomSource::seeded(6);
    let selector = FitnessProportionateSelection::new();
    let population = vec![TestIndividual::from_fitness(0), TestIndividual::from_fitness(0)];
    assert_eq!(
        selector.select(&mut rng, &population, 2).unwrap_err(),
        GaError::ZeroFitnessSum
    );
}

#[test]
fn selection_rejects_negative_fitness() {
    let mut rng = RandomSource::seeded(7);
    let selector = FitnessProportionateSelection::new();
    let population = vec![TestIndividual::from_fitness(S), TestIndividual::from_fitness(-S)];
    assert_eq!(
        selector.select(&mut rng, &population, 1).unwrap_err(),
        GaError::NegativeFitness
    );
}

#[test]
fn evolve_of_an_empty_population_is_empty() {
    let mut rng = RandomSource::seeded(9);
    let evolver = GeneticAlgorithm::new(
        FitnessProportionateSelection::new(),
        UniformCrossover::new(),
        GaussianMutation::new(S / 2, S),
    );
    let population: Vec<TestIndividual> = Vec::new();
    let next = evolver.evolve(&mut rng, &population).unwrap();
    assert!(next.is_empty());
}

#[test]
fn weighted_pick_walks_prefix_sums() {
    let weights = vec![S, 2 * S, 4 * S, 0];
    // the draw falls into the bucket whose prefix-sum window contains it
    assert_eq!(pick_weighted(&weights, 0), 0);
    assert_eq!(pick_weighted(&weights, (S - 1) as u64), 0);
    assert_eq!(pick_weighted(&weights, S as u64), 1);
    assert_eq!(pick_weighted(&weights, (3 * S - 1) as u64), 1);
    assert_eq!(pick_weighted(&weights, (3 * S) as u64), 2);
    assert_eq!(pick_weighted(&weights, (7 * S - 1) as u64), 2);
    // a zero-weight bucket is skipped whatever the draw
    let skewed = vec![0, 5];
    assert_eq!(pick_weighted(&skewed, 0), 1);
    assert_eq!(pick_weighted(&skewed, 4), 1);
}

fn create_individual(genes: Vec<i64>) -> TestIndividual {
    TestIndividual::WithChromosome { chromosome: Chromosome::new(genes) }
}

fn mean_fitness(population: &Vec<TestIndividual>) -> i64 {
    let mut sum: i64 = 0;
    for ind in population {
        sum += ind.fitness();
    }
    sum / population.len() as i64
}

#[test]
fn test_evolve() {
    let mut rng = RandomSource::seeded(8);
    let evolver = GeneticAlgorithm::new(
        FitnessProportionateSelection::new(),
        UniformCrossover::new(),
        GaussianMutation::new(S / 4, S / 4),
    );

    let mut population = vec![
        create_individual(vec![0, 0, 0]),
        create_individual(vec![3 * S, 3 * S, 3 * S]),
        create_individual(vec![S, 2 * S, 3 * S]),
    ];
    let start = mean_fitness(&population);
    let mut last = start;
    for _ in 0..30 {
        match evolver.evolve(&mut rng, &population) {
            Ok(next) => {
                assert_eq!(next.len(), 3);
                population = next;
                last = mean_fitness(&population);
            }
            // a generation whose fitness total is not positive cannot breed
            Err(_) => break,
        }
    }
    // fitness is the gene sum, so selection pressure raises the mean
    assert!(last > start);
}
