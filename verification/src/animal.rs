//! An agent: a position and heading on the torus, a speed, a consumption
//! counter, an eye and a brain. The bridge between the simulation and the
//! genetic algorithm is the pure two-way encoding between an agent's brain
//! and a chromosome.

use vstd::prelude::*;
use crate::chromosome::Chromosome;
use crate::eye::Eye;
use crate::food::coord_ok;
use crate::fx::{FX_HALF_PI, FX_ONE, FX_PI, fx_ok};
use crate::individual::Individual;
use crate::mlp::{
    MLP, NetRepr, decode_net, flatten_net, lemma_flatten_net_ok, needed_genes, net_shape,
    net_weights_within_unit,
};
use crate::rng::RandomSource;
use crate::simulation::{MAX_SPEED, MIN_SPEED};

verus! {

/// The bias every freshly randomized brain starts with (0.01 in fixed-point
/// steps).
pub const INITIAL_BIAS: i64 = 655;

/// The layer sizes of every agent brain: one hidden layer of twice the
/// receptor count, then the two motion outputs.
pub open spec fn standard_layout() -> Seq<usize> {
    seq![20usize, 2usize]
}

/// The stock eye configuration every agent is built with.
pub open spec fn standard_eye(e: Eye) -> bool {
    &&& e.fov_range_spec() == FX_ONE / 2
    &&& e.fov_angle_spec() == FX_HALF_PI
    &&& e.receptors_spec() == 10
}

/// How many genes an agent's chromosome holds.
pub proof fn lemma_standard_gene_len()
    ensures
        needed_genes(10, standard_layout()) == 262,
{
    let s = standard_layout();
    assert(s.first() == 20usize);
    assert(s.drop_first() =~= seq![2usize]);
    assert(seq![2usize].drop_first() =~= Seq::<usize>::empty());
    assert(needed_genes(2, Seq::<usize>::empty()) == 0);
    assert(needed_genes(20, seq![2usize]) == 2 * 21 + needed_genes(2, Seq::<usize>::empty()));
    assert(needed_genes(10, s) == 20 * 11 + needed_genes(20, seq![2usize]));
}

/// An agent of the foraging world.
pub struct Animal {
    pub(crate) x: i64,
    pub(crate) y: i64,
    pub(crate) rotation: i64,
    pub(crate) speed: i64,
    pub(crate) consumed: u32,
    pub(crate) eye: Eye,
    pub(crate) brain: MLP,
}

impl Animal {
    pub open(crate) spec fn x_spec(&self) -> i64 {
        self.x
    }

    pub open(crate) spec fn y_spec(&self) -> i64 {
        self.y
    }

    pub open(crate) spec fn rotation_spec(&self) -> i64 {
        self.rotation
    }

    pub open(crate) spec fn speed_spec(&self) -> i64 {
        self.speed
    }

    pub open(crate) spec fn consumed_spec(&self) -> u32 {
        self.consumed
    }

    pub open(crate) spec fn eye_spec(&self) -> Eye {
        self.eye
    }

    /// The mathematical model of this agent's brain.
    pub open(crate) spec fn brain_repr(&self) -> NetRepr {
        self.brain.repr()
    }

    /// Position on the torus, heading and speed within their ranges, a
    /// usable standard eye, and a brain shaped for that eye.
    pub open spec fn wf(&self) -> bool {
        &&& coord_ok(self.x_spec())
        &&& coord_ok(self.y_spec())
        &&& -FX_PI <= self.rotation_spec() <= FX_PI
        &&& MIN_SPEED <= self.speed_spec() <= MAX_SPEED
        &&& self.eye_spec().wf()
        &&& standard_eye(self.eye_spec())
        &&& net_shape(self.brain_repr(), 10, standard_layout())
    }

    /// An agent with the given eye and brain at a uniformly random position
    /// and heading, at minimum speed, with nothing consumed yet.
    pub fn new(rng: &mut RandomSource, eye: Eye, brain: MLP) -> (r: Animal)
        requires
            eye.wf(),
            standard_eye(eye),
            net_shape(brain.repr(), 10, standard_layout()),
        ensures
            r.wf(),
            r.consumed_spec() == 0,
            r.speed_spec() == MIN_SPEED,
            r.eye_spec() == eye,
            r.brain_repr() == brain.repr(),
    {
        let x: i64 = rng.unit_coord();
        let y: i64 = rng.unit_coord();
        let rotation: i64 = rng.angle();
        Animal { x, y, rotation, speed: MIN_SPEED, consumed: 0, eye, brain }
    }

    /// An agent with a uniformly random brain: every bias starts at
    /// `INITIAL_BIAS`, every weight is drawn from `[-1, 1]`, and the agent
    /// starts at minimum speed with nothing consumed.
    pub fn random(rng: &mut RandomSource) -> (r: Animal)
        ensures
            r.wf(),
            r.consumed_spec() == 0,
            r.speed_spec() == MIN_SPEED,
            forall|k: int, j: int|
                0 <= k < r.brain_repr().len() && 0 <= j < r.brain_repr()[k].len() ==> (
                #[trigger] r.brain_repr()[k][j]).1 == INITIAL_BIAS,
            net_weights_within_unit(r.brain_repr()),
    {
        let eye: Eye = Eye::default();
        let receptors: usize = eye.receptor_count();
        let mut nouts: Vec<usize> = Vec::new();
        nouts.push(2 * receptors);
        nouts.push(2);
        proof {
            assert(nouts@ =~= standard_layout());
        }
        let brain: MLP = MLP::new_random(rng, receptors, &nouts, INITIAL_BIAS);
        proof {
            assert forall|k: int, j: int|
                0 <= k < brain.repr().len() && 0 <= j < brain.repr()[k].len() implies (
            #[trigger] brain.repr()[k][j]).1 == INITIAL_BIAS by {
                assert(brain.repr()[k].len() == nouts@[k]);
            }
        }
        Animal::new(rng, eye, brain)
    }

    /// An agent whose brain is decoded from the chromosome, with a fresh
    /// random position and heading, at minimum speed.
    pub fn from_chromosome(rng: &mut RandomSource, genes: &Chromosome) -> (r: Animal)
        requires
            genes@.len() >= needed_genes(10, standard_layout()),
        ensures
            r.wf(),
            r.consumed_spec() == 0,
            r.speed_spec() == MIN_SPEED,
            r.brain_repr() == decode_net(10, standard_layout(), genes@, 0),
    {
        let eye: Eye = Eye::default();
        let mut nouts: Vec<usize> = Vec::new();
        nouts.push(20);
        nouts.push(2);
        proof {
            assert(nouts@ =~= standard_layout());
            lemma_standard_gene_len();
        }
        let brain: MLP = match MLP::from_weight_and_biases(10, &nouts, genes) {
            Ok(brain) => brain,
            Err(_) => {
                // the chromosome covers the topology, so decoding cannot fault
                proof {
                    assert(false);
                }
                vstd::pervasive::unreached()
            },
        };
        Animal::new(rng, eye, brain)
    }

    /// The agent's brain flattened into a chromosome, in the exact order the
    /// decoder consumes.
    pub fn as_chromosome(&self) -> (r: Chromosome)
        requires
            self.wf(),
        ensures
            r@ == flatten_net(self.brain_repr()),
    {
        proof {
            lemma_flatten_net_ok(self.brain_repr(), 10, standard_layout());
        }
        Chromosome::new(self.brain.weights_and_biases())
    }

    /// The position, as a coordinate pair.
    pub fn position(&self) -> (r: (i64, i64))
        ensures
            r.0 == self.x_spec(),
            r.1 == self.y_spec(),
    {
        (self.x, self.y)
    }

    /// The heading, in fixed-point angle steps.
    pub fn rotation(&self) -> (r: i64)
        ensures
            r == self.rotation_spec(),
    {
        self.rotation
    }

    /// The speed, in fixed-point world units per step.
    pub fn speed(&self) -> (r: i64)
        ensures
            r == self.speed_spec(),
    {
        self.speed
    }

    /// How many food items this agent has consumed this generation.
    pub fn consumed(&self) -> (r: u32)
        ensures
            r == self.consumed_spec(),
    {
        self.consumed
    }
}

/// An agent as the genetic algorithm sees it: its brain's chromosome and the
/// consumption count turned into a fitness score.
pub struct AnimalIndividual {
    chromosome: Chromosome,
    fitness: i64,
}

impl AnimalIndividual {
    #[verifier::type_invariant]
    spec fn inv(self) -> bool {
        fx_ok(self.fitness)
    }

    /// Snapshot a live agent: its encoded brain, and one fitness unit per
    /// consumed food item (saturated at the representable magnitude).
    pub fn from_animal(animal: &Animal) -> (r: AnimalIndividual)
        requires
            animal.wf(),
        ensures
            r.chromosome_spec() == flatten_net(animal.brain_repr()),
            r.fitness_spec() == crate::fx::clip(
                (animal.consumed_spec() as int) * (FX_ONE as int),
            ),
            r.has_chromosome(),
    {
        let chromosome: Chromosome = animal.as_chromosome();
        let fitness: i64 = crate::fx::clip_i64((animal.consumed() as i64) * FX_ONE);
        AnimalIndividual { chromosome, fitness }
    }

    /// Decode this individual back into a fresh agent.
    pub fn into_animal(&self, rng: &mut RandomSource) -> (r: Animal)
        requires
            self.chromosome_spec().len() >= needed_genes(10, standard_layout()),
        ensures
            r.wf(),
            r.consumed_spec() == 0,
            r.speed_spec() == MIN_SPEED,
            r.brain_repr() == decode_net(10, standard_layout(), self.chromosome_spec(), 0),
    {
        Animal::from_chromosome(rng, &self.chromosome)
    }
}

impl Individual for AnimalIndividual {
    closed spec fn chromosome_spec(&self) -> Seq<i64> {
        self.chromosome@
    }

    closed spec fn fitness_spec(&self) -> int {
        self.fitness as int
    }

    closed spec fn has_chromosome(&self) -> bool {
        true
    }

    fn from_chromosome(chromosome: Chromosome) -> (r: Self)
        ensures
            r.fitness_spec() == 0,
    {
        AnimalIndividual { chromosome, fitness: 0 }
    }

    fn as_chromosome(&self) -> (r: &Chromosome) {
        &self.chromosome
    }

    fn fitness(&self) -> (r: i64) {
        proof {
            use_type_invariant(self);
        }
        self.fitness
    }
}

} // verus!
