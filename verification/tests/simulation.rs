//! The sensor model, the world physics and the full simulation loop.

use neuroevolution::animal::{Animal, AnimalIndividual};
use neuroevolution::errors::GaError;
use neuroevolution::eye::{Eye, NOTHING_SEEN};
use neuroevolution::food::Food;
use neuroevolution::fx::{
    FX_HALF_PI, FX_ONE, FX_PI, atan2_fx, cos_fx, fx_add, fx_mul, hyp_fx, sin_fx, wrap_pi,
    wrap_unit,
};
use neuroevolution::fx::FX_MAX;
use neuroevolution::generation_statistics::GenerationStatistics;
use neuroevolution::individual::TestIndividual;
use neuroevolution::rng::RandomSource;
use neuroevolution::simulation::{GENERATION_STEPS, Simulation};
use neuroevolution::world::World;

const S: i64 = FX_ONE;

#[test]
fn fixed_point_arithmetic() {
    assert_eq!(fx_mul(2 * S, 3 * S), 6 * S);
    assert_eq!(fx_mul(-S / 2, 14 * S), -7 * S);
    assert_eq!(fx_mul(5 * S, 0), 0);
    assert_eq!(fx_add(3 * S, -S), 2 * S);
    assert_eq!(fx_add(FX_MAX, FX_MAX), FX_MAX);
    assert_eq!(hyp_fx(3, 4), 5);
    assert_eq!(hyp_fx(-3, 4), 5);
}

#[test]
fn toroidal_wrap() {
    // a coordinate just past one wraps to just past zero
    assert_eq!(wrap_unit(S + 1), 1);
    assert_eq!(wrap_unit(-1), S - 1);
    assert_eq!(wrap_unit(0), 0);
    assert_eq!(wrap_unit(S - 1), S - 1);
}

#[test]
fn angles_wrap_and_project() {
    assert_eq!(wrap_pi(FX_PI + 10), 10 - FX_PI);
    assert_eq!(wrap_pi(-FX_PI - 10), FX_PI - 10);
    assert_eq!(sin_fx(0), 0);
    assert_eq!(cos_fx(0), S);
    assert_eq!(cos_fx(FX_PI), -S);
    assert_eq!(atan2_fx(0, 1000), 0);
    assert_eq!(atan2_fx(1000, 0), FX_HALF_PI);
    assert_eq!(atan2_fx(0, -1000), FX_PI);
    assert_eq!(atan2_fx(-1000, 0), -FX_HALF_PI);
}

fn render(receptors: Vec<i64>) -> String {
    receptors
        .into_iter()
        .map(|dist| {
            if dist > S {
                " "
            } else if dist > 39321 {
                "."
            } else if dist > 19660 {
                "o"
            } else {
                "O"
            }
        })
        .collect::<Vec<_>>()
        .join("")
}

#[test]
fn eye_test() {
    // an agent at the left edge looking right at one food item a fifth of a
    // unit ahead, under narrowing fields of view
    let cases = [
        (S, "     O    "),
        (39321, "     o    "),
        (13107, "     .    "),
        (12451, "          "),
    ];
    for (fov_range, expected) in cases {
        let eye = Eye::new(fov_range, FX_HALF_PI, 10);
        let food = vec![Food::new(13107, S / 2)];
        let r = eye.process_vision(0, S / 2, 0, &food);
        assert_eq!(render(r), expected);
    }
}

#[test]
fn eye_bins_a_target_ahead_at_half_range() {
    // the stock eye: a target dead ahead at half the field-of-view range
    // reports half distance in the middle receptor
    let eye = Eye::default();
    let food = vec![Food::new(S / 4, S / 2)];
    let r = eye.process_vision(0, S / 2, 0, &food);
    assert_eq!(r.len(), 10);
    assert_eq!(r[5], S / 2);
    for (i, v) in r.iter().enumerate() {
        if i != 5 {
            assert_eq!(*v, NOTHING_SEEN);
        }
    }
}

#[test]
fn eye_with_a_degenerate_field_of_view() {
    // a zero-width field of view still reports a target exactly ahead,
    // in the first receptor
    let eye = Eye::new(S, 0, 10);
    let food = vec![Food::new(S / 2, S / 2)];
    let r = eye.process_vision(0, S / 2, 0, &food);
    assert_eq!(r[0], S / 2);
    for v in r.iter().skip(1) {
        assert_eq!(*v, NOTHING_SEEN);
    }
}

#[test]
fn eye_ignores_a_target_beyond_range() {
    let eye = Eye::default();
    // straight ahead but past the field-of-view range
    let food = vec![Food::new(S / 2 + 3000, S / 2)];
    let r = eye.process_vision(0, S / 2, 0, &food);
    for v in r {
        assert_eq!(v, NOTHING_SEEN);
    }
}

#[test]
fn eye_ignores_a_target_behind() {
    let eye = Eye::default();
    let food = vec![Food::new(S / 2, S / 2)];
    // the agent faces the other way
    let r = eye.process_vision(S / 4, S / 2, FX_PI, &food);
    for v in r {
        assert_eq!(v, NOTHING_SEEN);
    }
}

#[test]
fn statistics_of_a_known_population() {
    let population = vec![
        TestIndividual::from_fitness(S),
        TestIndividual::from_fitness(2 * S),
        TestIndividual::from_fitness(4 * S),
        TestIndividual::from_fitness(0),
    ];
    let stats = GenerationStatistics::from_population(&population);
    assert_eq!(stats.max_fitness(), 4 * S);
    assert_eq!(stats.min_fitness(), 0);
    assert_eq!(stats.mean_fitness(), 114688);
    assert_eq!(stats.std_fitness(), 96929);
}

#[test]
fn statistics_of_an_all_positive_population() {
    // the minimum is the true least fitness, not a zero-seeded fold
    let population = vec![TestIndividual::from_fitness(S), TestIndividual::from_fitness(2 * S)];
    let stats = GenerationStatistics::from_population(&population);
    assert_eq!(stats.max_fitness(), 2 * S);
    assert_eq!(stats.min_fitness(), S);
    assert_eq!(stats.mean_fitness(), 3 * S / 2);
    assert_eq!(stats.std_fitness(), S / 2);
}

#[test]
fn animal_chromosome_round_trip() {
    let mut rng = RandomSource::seeded(21);
    let animal = Animal::random(&mut rng);
    let genes = animal.as_chromosome();
    // 20 neurons of 11 genes, then 2 neurons of 21 genes
    assert_eq!(genes.len(), 262);

    let individual = AnimalIndividual::from_animal(&animal);
    let rebuilt = individual.into_animal(&mut rng);
    let genes2 = rebuilt.as_chromosome();
    assert_eq!(genes2.len(), 262);
    for i in 0..262 {
        assert_eq!(genes.get(i), genes2.get(i));
    }
}

#[test]
fn world_random_populates_both_collections() {
    let mut rng = RandomSource::seeded(22);
    let world = World::random(&mut rng, 5, 9);
    assert_eq!(world.animals().len(), 5);
    assert_eq!(world.food().len(), 9);
    for a in world.animals() {
        let (x, y) = a.position();
        assert!(0 <= x && x < S && 0 <= y && y < S);
        assert_eq!(a.consumed(), 0);
    }
    for f in world.food() {
        let (x, y) = f.position();
        assert!(0 <= x && x < S && 0 <= y && y < S);
    }
}

#[test]
fn simulation_counts_steps() {
    let mut rng = RandomSource::seeded(23);
    let mut sim = Simulation::random(&mut rng, 4, 4);
    assert_eq!(sim.generation(), 0);
    assert_eq!(sim.generation_steps(), 0);
    assert!(sim.prev_generation_statistics().is_none());
    for k in 1..=5u32 {
        sim.step(&mut rng).unwrap();
        assert_eq!(sim.generation_steps(), k);
        assert_eq!(sim.generation(), 0);
    }
    assert_eq!(sim.world().animals().len(), 4);
    assert_eq!(sim.world().food().len(), 4);
}

#[test]
fn evolution_faults_when_nothing_was_eaten() {
    let mut rng = RandomSource::seeded(24);
    // no food at all, so no agent can ever consume anything
    let mut sim = Simulation::random(&mut rng, 3, 0);
    for _ in 0..GENERATION_STEPS - 1 {
        sim.step(&mut rng).unwrap();
    }
    assert_eq!(sim.generation_steps(), GENERATION_STEPS - 1);
    // the step that would evolve reports the fault and changes nothing
    assert_eq!(sim.step(&mut rng).unwrap_err(), GaError::ZeroFitnessSum);
    assert_eq!(sim.generation(), 0);
    assert_eq!(sim.generation_steps(), GENERATION_STEPS - 1);
}

#[test]
fn a_full_generation_evolves() {
    let mut rng = RandomSource::seeded(25);
    let mut sim = Simulation::random(&mut rng, 8, 32);
    for _ in 0..GENERATION_STEPS {
        sim.step(&mut rng).unwrap();
    }
    assert_eq!(sim.generation(), 1);
    assert_eq!(sim.generation_steps(), 0);
    assert_eq!(sim.world().animals().len(), 8);
    assert_eq!(sim.world().food().len(), 32);
    // the new population starts unfed
    for a in sim.world().animals() {
        assert_eq!(a.consumed(), 0);
    }
    let stats = sim.prev_generation_statistics().unwrap();
    // something was eaten, so the best fitness is positive
    assert!(stats.max_fitness() >= S);
    assert!(stats.min_fitness() >= 0);
    assert!(stats.mean_fitness() > 0);
    assert!(stats.std_fitness() >= 0);
}

#[test]
fn bernoulli_edges() {
    let mut rng = RandomSource::seeded(26);
    for _ in 0..100 {
        assert!(!rng.bernoulli(0));
        assert!(rng.bernoulli(S));
    }
}
