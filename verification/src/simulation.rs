//! The simulation: per-step consumption, sensing, motion integration, and
//! the periodic generational evolution.

use vstd::prelude::*;
use crate::animal::{
    Animal, AnimalIndividual, lemma_standard_gene_len, standard_layout,
};
use crate::crossover::UniformCrossover;
use crate::errors::GaError;
use crate::eye::vision_spec;
use crate::food::Food;
use crate::fx::{
    FX_HALF_PI, FX_ONE, cos_fx, cos_spec, fx_mul, fx_mul_spec, lemma_fx_mul_le_factor, sin_fx,
    sin_spec, wrap_pi, wrap_pi_spec, wrap_unit, wrap_unit_spec, abs_i,
};
use crate::generation_statistics::{GenerationStatistics, max_of, mean_of, min_of, std_of};
use crate::individual::{Individual, fits_of};
use crate::genetic_algorithm::{GeneticAlgorithm, bred_from, uniform_chromosomes};
use crate::individual::chromosomes_of;
use crate::mlp::{
    decode_net, flatten_net, lemma_flatten_net_len, lemma_net_out_ok, lemma_shape_implies_chain,
    net_out,
};
use crate::mutation::{GaussianMutation, Mutation};
use crate::rng::RandomSource;
use crate::selection::{
    FitnessProportionateSelection, MAX_POPULATION, lemma_total_pos, nonneg_fitness,
};
use crate::world::World;

verus! {

/// Steps per generation before an evolution is triggered.
pub const GENERATION_STEPS: u32 = 1000;

/// The slowest an agent may move, in fixed-point units per step.
pub const MIN_SPEED: i64 = 66;

/// The fastest an agent may move, in fixed-point units per step.
pub const MAX_SPEED: i64 = 328;

/// The largest speed change one step may apply.
pub const MAX_ACCEL: i64 = 13107;

/// The largest heading change one step may apply.
pub const MAX_ANGULAR_ACCEL: i64 = FX_HALF_PI;

/// An agent eats every food item strictly nearer than this combined radius.
pub const EAT_RADIUS: i64 = 1311;

/// A value forced into a closed range.
pub open spec fn clamp_spec(v: int, lo: int, hi: int) -> int {
    if v < lo {
        lo
    } else if v > hi {
        hi
    } else {
        v
    }
}

/// The fitness each agent carries into selection: one fixed-point unit per
/// consumed food item.
pub open spec fn animal_fitnesses(animals: Seq<Animal>) -> Seq<int> {
    Seq::new(
        animals.len(),
        |i: int| crate::fx::clip((animals[i].consumed_spec() as int) * (FX_ONE as int)),
    )
}

/// The two motion outputs an agent's brain produces on this food layout.
pub open spec fn brain_outputs(a: Animal, foods: Seq<Food>) -> Seq<i64> {
    net_out(
        a.brain_repr(),
        vision_spec(a.eye_spec(), a.x_spec() as int, a.y_spec() as int, a.rotation_spec() as int, foods),
    )
}

/// The speed after one brain step: the first output clamped to the
/// acceleration bound, integrated, and clamped to the speed range.
pub open spec fn speed_after(a: Animal, foods: Seq<Food>) -> int {
    let sa = clamp_spec(brain_outputs(a, foods)[0] as int, -MAX_ACCEL, MAX_ACCEL as int);
    clamp_spec(a.speed_spec() + sa, MIN_SPEED as int, MAX_SPEED as int)
}

/// The heading after one brain step: the second output clamped to the
/// angular bound, integrated, and wrapped.
pub open spec fn rotation_after(a: Animal, foods: Seq<Food>) -> int {
    let aa = clamp_spec(
        brain_outputs(a, foods)[1] as int,
        -MAX_ANGULAR_ACCEL,
        MAX_ANGULAR_ACCEL as int,
    );
    wrap_pi_spec(a.rotation_spec() + aa)
}

/// One brain step leaves everything but speed and heading alone.
pub open spec fn brain_stepped(a: Animal, b: Animal, foods: Seq<Food>) -> bool {
    &&& b.x_spec() == a.x_spec()
    &&& b.y_spec() == a.y_spec()
    &&& b.consumed_spec() == a.consumed_spec()
    &&& b.eye_spec() == a.eye_spec()
    &&& b.brain_repr() == a.brain_repr()
    &&& b.speed_spec() == speed_after(a, foods)
    &&& b.rotation_spec() == rotation_after(a, foods)
}

/// One move step changes only the position: each coordinate advances along
/// the heading by the speed and wraps around the torus.
pub open spec fn moved(a: Animal, b: Animal) -> bool {
    &&& b.x_spec() == wrap_unit_spec(
        a.x_spec() + fx_mul_spec(cos_spec(a.rotation_spec() as int), a.speed_spec() as int),
    )
    &&& b.y_spec() == wrap_unit_spec(
        a.y_spec() + fx_mul_spec(sin_spec(a.rotation_spec() as int), a.speed_spec() as int),
    )
    &&& b.rotation_spec() == a.rotation_spec()
    &&& b.speed_spec() == a.speed_spec()
    &&& b.consumed_spec() == a.consumed_spec()
    &&& b.eye_spec() == a.eye_spec()
    &&& b.brain_repr() == a.brain_repr()
}

/// Consumption resolution may only raise the counter; everything else stays.
pub open spec fn fed(a: Animal, b: Animal) -> bool {
    &&& b.x_spec() == a.x_spec()
    &&& b.y_spec() == a.y_spec()
    &&& b.rotation_spec() == a.rotation_spec()
    &&& b.speed_spec() == a.speed_spec()
    &&& b.consumed_spec() >= a.consumed_spec()
    &&& b.eye_spec() == a.eye_spec()
    &&& b.brain_repr() == a.brain_repr()
}

/// The agent and the food item lie strictly within the combined eating
/// radius of one another.
pub open spec fn within_reach(a: Animal, f: Food) -> bool {
    let dx = a.x_spec() - f.x_spec();
    let dy = a.y_spec() - f.y_spec();
    dx * dx + dy * dy < EAT_RADIUS * EAT_RADIUS
}

/// No agent of the collection reaches any of the foods.
pub open spec fn no_contact(animals: Seq<Animal>, foods: Seq<Food>) -> bool {
    forall|i: int, j: int|
        0 <= i < animals.len() && 0 <= j < foods.len() ==> !#[trigger] within_reach(
            animals[i],
            foods[j],
        )
}

/// How many of the foods the agent reaches.
pub open spec fn reach_count(a: Animal, foods: Seq<Food>) -> int
    decreases foods.len(),
{
    if foods.len() == 0 {
        0
    } else {
        reach_count(a, foods.drop_last()) + (if within_reach(a, foods.last()) {
            1int
        } else {
            0int
        })
    }
}

/// A consumption counter saturated at its machine word.
pub open spec fn clip_u32(v: int) -> int {
    if v > u32::MAX {
        u32::MAX as int
    } else {
        v
    }
}

/// One agent's scan over one food arrangement: every reached item is
/// relocated (to some position on the torus), every other keeps its place.
pub open spec fn scan_step(a: Animal, before: Seq<Food>, after: Seq<Food>) -> bool {
    &&& after.len() == before.len()
    &&& forall|j: int|
        #![trigger after[j]]
        0 <= j < before.len() ==> if within_reach(a, before[j]) {
            after[j].wf()
        } else {
            after[j] == before[j]
        }
}

/// Consumption resolution, exactly: agents scan in order, each against the
/// food arrangement its scan starts from, eat every item then strictly
/// within reach (the counter saturating at its machine word), and each eaten
/// item is relocated; where nothing is in reach at the outset, nothing
/// changes at all.
pub open spec fn consumption_resolved(
    a0: Seq<Animal>,
    f0: Seq<Food>,
    a1: Seq<Animal>,
    f1: Seq<Food>,
) -> bool {
    &&& a1.len() == a0.len()
    &&& f1.len() == f0.len()
    &&& forall|i: int| 0 <= i < a0.len() ==> fed(a0[i], #[trigger] a1[i])
    &&& exists|chain: Seq<Seq<Food>>|
        {
            &&& chain.len() == a0.len() + 1
            &&& chain.first() == f0
            &&& chain.last() == f1
            &&& forall|i: int|
                0 <= i < a0.len() ==> scan_step(a0[i], #[trigger] chain[i], chain[i + 1])
            &&& forall|i: int|
                0 <= i < a0.len() ==> (#[trigger] a1[i]).consumed_spec() == clip_u32(
                    a0[i].consumed_spec() + reach_count(a0[i], chain[i]),
                )
        }
    &&& no_contact(a0, f0) ==> a1 == a0 && f1 == f0
}

/// Sensing and integration applied to each agent against one food
/// arrangement.
pub open spec fn brains_processed(a0: Seq<Animal>, foods: Seq<Food>, a1: Seq<Animal>) -> bool {
    &&& a1.len() == a0.len()
    &&& forall|i: int| 0 <= i < a0.len() ==> brain_stepped(a0[i], #[trigger] a1[i], foods)
}

/// Motion applied to each agent.
pub open spec fn animals_moved(a0: Seq<Animal>, a1: Seq<Animal>) -> bool {
    &&& a1.len() == a0.len()
    &&& forall|i: int| 0 <= i < a0.len() ==> moved(a0[i], #[trigger] a1[i])
}

/// The gene pool of the agents' encoded brains.
pub open spec fn brain_pool(animals: Seq<Animal>) -> Seq<Seq<i64>> {
    Seq::new(animals.len(), |i: int| flatten_net(animals[i].brain_repr()))
}

/// The agent's brain is decoded from some chromosome bred out of the given
/// population's gene pool.
pub open spec fn brain_bred_from(a0: Seq<Animal>, strength: int, b: Animal) -> bool {
    exists|c: Seq<i64>|
        #[trigger] bred_from(brain_pool(a0), animal_fitnesses(a0), strength, c)
            && b.brain_repr() == decode_net(10, crate::animal::standard_layout(), c, 0)
}

/// A generational replacement: same count, every agent fresh (nothing
/// consumed, minimum speed, well formed) with a brain decoded from a
/// chromosome bred out of the outgoing population's gene pool.
pub open spec fn population_evolved(a0: Seq<Animal>, strength: int, a1: Seq<Animal>) -> bool {
    &&& a1.len() == a0.len()
    &&& forall|i: int|
        0 <= i < a1.len() ==> (#[trigger] a1[i]).wf() && a1[i].consumed_spec() == 0
            && a1[i].speed_spec() == MIN_SPEED
    &&& forall|i: int| 0 <= i < a1.len() ==> brain_bred_from(a0, strength, #[trigger] a1[i])
}

/// The simulation: the world, the evolver, and the generation counters.
pub struct Simulation {
    world: World,
    evolver: GeneticAlgorithm<FitnessProportionateSelection, UniformCrossover, GaussianMutation>,
    generation: u32,
    generation_steps: u32,
    prev_stats: Option<GenerationStatistics>,
}

impl Simulation {
    pub closed spec fn world_spec(&self) -> World {
        self.world
    }

    pub closed spec fn generation_spec(&self) -> u32 {
        self.generation
    }

    pub closed spec fn generation_steps_spec(&self) -> u32 {
        self.generation_steps
    }

    pub closed spec fn prev_stats_spec(&self) -> Option<GenerationStatistics> {
        self.prev_stats
    }

    /// The genetic engine this simulation evolves with.
    pub closed spec fn evolver_spec(&self) -> GeneticAlgorithm<
        FitnessProportionateSelection,
        UniformCrossover,
        GaussianMutation,
    > {
        self.evolver
    }

    /// A well-formed world with at least one agent, and a step counter
    /// within the generation budget.
    pub open spec fn wf(&self) -> bool {
        &&& self.world_spec().wf()
        &&& 1 <= self.world_spec().animals_spec().len() <= MAX_POPULATION
        &&& self.generation_steps_spec() < GENERATION_STEPS
    }

    /// A fresh random simulation: random agents, random food, and an engine
    /// of fitness-proportionate selection, uniform crossover and Gaussian
    /// mutation with one percent rate and one-fifth strength.
    pub fn random(rng: &mut RandomSource, num_animals: u8, num_food: u8) -> (r: Simulation)
        requires
            num_animals >= 1,
        ensures
            r.wf(),
            r.generation_spec() == 0,
            r.generation_steps_spec() == 0,
            r.prev_stats_spec() is None,
            r.world_spec().animals_spec().len() == num_animals,
            r.world_spec().food_spec().len() == num_food,
            r.evolver_spec().mutation_method_spec().rate_spec() == 655,
            r.evolver_spec().mutation_method_spec().strength_spec() == 13107,
    {
        let evolver = GeneticAlgorithm::new(
            FitnessProportionateSelection::new(),
            UniformCrossover::new(),
            GaussianMutation::new(655, 13107),
        );
        let world = World::random(rng, num_animals, num_food);
        Simulation { world, evolver, generation: 0, generation_steps: 0, prev_stats: None }
    }

    /// The world, for read-only inspection.
    pub fn world(&self) -> (r: &World)
        ensures
            *r == self.world_spec(),
    {
        &self.world
    }

    /// The index of the current generation.
    pub fn generation(&self) -> (r: u32)
        ensures
            r == self.generation_spec(),
    {
        self.generation
    }

    /// How many steps the current generation has run.
    pub fn generation_steps(&self) -> (r: u32)
        ensures
            r == self.generation_steps_spec(),
    {
        self.generation_steps
    }

    /// The previous generation's fitness statistics, or nothing before the
    /// first generation completes.
    pub fn prev_generation_statistics(&self) -> (r: Option<&GenerationStatistics>)
        ensures
            match r {
                Some(s) => self.prev_stats_spec() == Some(*s),
                None => self.prev_stats_spec() is None,
            },
    {
        match &self.prev_stats {
            Some(s) => Some(s),
            None => None,
        }
    }

    /// Resolve consumption: every agent, in order, eats each food item
    /// strictly within the combined radius of its scan, and each eaten item
    /// is relocated at random.
    pub fn eat_food(&mut self, rng: &mut RandomSource)
        requires
            old(self).wf(),
        ensures
            final(self).wf(),
            final(self).generation_spec() == old(self).generation_spec(),
            final(self).generation_steps_spec() == old(self).generation_steps_spec(),
            final(self).prev_stats_spec() == old(self).prev_stats_spec(),
            final(self).evolver_spec() == old(self).evolver_spec(),
            consumption_resolved(
                old(self).world_spec().animals_spec(),
                old(self).world_spec().food_spec(),
                final(self).world_spec().animals_spec(),
                final(self).world_spec().food_spec(),
            ),
    {
        let n: usize = self.world.animals.len();
        let m: usize = self.world.food.len();
        let ghost orig: Seq<Animal> = self.world.animals@;
        let ghost foods0: Seq<Food> = self.world.food@;
        let ghost mut chain: Seq<Seq<Food>> = seq![foods0];
        let mut i: usize = 0;
        while i < n
            invariant
                0 <= i <= n,
                n == self.world.animals@.len(),
                m == self.world.food@.len(),
                orig.len() == n,
                foods0.len() == m,
                self.generation == old(self).generation,
                self.generation_steps == old(self).generation_steps,
                self.prev_stats == old(self).prev_stats,
                self.evolver == old(self).evolver,
                forall|k: int| 0 <= k < n ==> (#[trigger] self.world.animals@[k]).wf(),
                forall|k: int| 0 <= k < m ==> (#[trigger] self.world.food@[k]).wf(),
                forall|k: int| i <= k < n ==> #[trigger] self.world.animals@[k] == orig[k],
                forall|k: int| 0 <= k < i ==> fed(orig[k], #[trigger] self.world.animals@[k]),
                chain.len() == i + 1,
                chain.first() == foods0,
                chain.last() == self.world.food@,
                forall|k: int|
                    0 <= k < i ==> scan_step(orig[k], #[trigger] chain[k], chain[k + 1]),
                forall|k: int|
                    0 <= k < i ==> (#[trigger] self.world.animals@[k]).consumed_spec() == clip_u32(
                        orig[k].consumed_spec() + reach_count(orig[k], chain[k]),
                    ),
                no_contact(orig, foods0) ==> self.world.food@ == foods0,
                no_contact(orig, foods0) ==> forall|k: int|
                    0 <= k < n ==> #[trigger] self.world.animals@[k] == orig[k],
            decreases n - i,
        {
            let ghost before: Seq<Animal> = self.world.animals@;
            let ghost fsnap: Seq<Food> = self.world.food@;
            let mut a: Animal = self.world.animals.remove(i);
            let ghost a0: Animal = a;
            proof {
                assert(a0 == orig[i as int]);
                assert(fsnap.take(0) =~= Seq::<Food>::empty());
            }
            let mut j: usize = 0;
            while j < m
                invariant
                    0 <= j <= m,
                    0 <= i < n,
                    n == orig.len(),
                    m == foods0.len(),
                    m == self.world.food@.len(),
                    m == fsnap.len(),
                    self.generation == old(self).generation,
                    self.generation_steps == old(self).generation_steps,
                    self.prev_stats == old(self).prev_stats,
                    self.evolver == old(self).evolver,
                    forall|k: int| 0 <= k < m ==> (#[trigger] self.world.food@[k]).wf(),
                    self.world.animals@ == before.remove(i as int),
                    a.wf(),
                    fed(a0, a),
                    a0 == orig[i as int],
                    forall|k: int| j <= k < m ==> #[trigger] self.world.food@[k] == fsnap[k],
                    forall|k: int|
                        #![trigger self.world.food@[k]]
                        0 <= k < j ==> if within_reach(a0, fsnap[k]) {
                            self.world.food@[k].wf()
                        } else {
                            self.world.food@[k] == fsnap[k]
                        },
                    a.consumed_spec() == clip_u32(
                        a0.consumed_spec() + reach_count(a0, fsnap.take(j as int)),
                    ),
                    no_contact(orig, foods0) ==> fsnap == foods0 && a == a0
                        && self.world.food@ == foods0,
                decreases m - j,
            {
                let f_x: i64;
                let f_y: i64;
                {
                    let f: &Food = &self.world.food[j];
                    let pos: (i64, i64) = f.position();
                    f_x = pos.0;
                    f_y = pos.1;
                }
                let dx: i64 = a.x - f_x;
                let dy: i64 = a.y - f_y;
                proof {
                    assert(0 <= (dx as int) * (dx as int) <= 0x1_0000_0000) by (nonlinear_arith)
                        requires
                            -65536 <= dx as int <= 65536,
                    ;
                    assert(0 <= (dy as int) * (dy as int) <= 0x1_0000_0000) by (nonlinear_arith)
                        requires
                            -65536 <= dy as int <= 65536,
                    ;
                }
                let d2: i64 = dx * dx + dy * dy;
                proof {
                    assert(self.world.food@[j as int] == fsnap[j as int]);
                    assert((d2 < EAT_RADIUS * EAT_RADIUS) == within_reach(a0, fsnap[j as int]));
                    assert(fsnap.take(j as int + 1).drop_last() =~= fsnap.take(j as int));
                    assert(fsnap.take(j as int + 1).last() == fsnap[j as int]);
                }
                if d2 < EAT_RADIUS * EAT_RADIUS {
                    proof {
                        if no_contact(orig, foods0) {
                            assert(within_reach(orig[i as int], foods0[j as int]));
                            assert(false);
                        }
                    }
                    if a.consumed < u32::MAX {
                        a.consumed = a.consumed + 1;
                    }
                    let ghost fbefore: Seq<Food> = self.world.food@;
                    let mut f2: Food = self.world.food.remove(j);
                    f2.randomize_position(rng);
                    self.world.food.insert(j, f2);
                    proof {
                        assert(self.world.food@ =~= fbefore.update(j as int, f2));
                    }
                } else {
                }
                j = j + 1;
            }
            proof {
                assert(fsnap.take(m as int) =~= fsnap);
                assert(scan_step(a0, fsnap, self.world.food@));
            }
            self.world.animals.insert(i, a);
            let ghost fdone: Seq<Food> = self.world.food@;
            proof {
                assert(self.world.animals@ =~= before.update(i as int, a));
                let chain2 = chain.push(fdone);
                assert(chain2.first() == chain.first());
                assert(forall|k: int| 0 <= k <= i ==> #[trigger] chain2[k] == chain[k]);
                assert(chain2[i as int] == fsnap);
                assert(chain2[i as int + 1] == fdone);
                chain = chain2;
            }
            i = i + 1;
        }
        proof {
            if no_contact(orig, foods0) {
                assert(self.world.animals@ =~= orig);
            }
            assert(consumption_resolved(orig, foods0, self.world.animals@, self.world.food@));
        }
    }

    /// Sense, think, and integrate: each agent's eye reading runs through
    /// its brain, whose two outputs adjust its speed and heading within
    /// fixed bounds.
    pub fn process_brains(&mut self)
        requires
            old(self).wf(),
        ensures
            final(self).wf(),
            final(self).generation_spec() == old(self).generation_spec(),
            final(self).generation_steps_spec() == old(self).generation_steps_spec(),
            final(self).prev_stats_spec() == old(self).prev_stats_spec(),
            final(self).evolver_spec() == old(self).evolver_spec(),
            final(self).world_spec().food_spec() == old(self).world_spec().food_spec(),
            final(self).world_spec().animals_spec().len() == old(
                self,
            ).world_spec().animals_spec().len(),
            forall|i: int|
                0 <= i < final(self).world_spec().animals_spec().len() ==> brain_stepped(
                    old(self).world_spec().animals_spec()[i],
                    #[trigger] final(self).world_spec().animals_spec()[i],
                    old(self).world_spec().food_spec(),
                ),
    {
        let n: usize = self.world.animals.len();
        let ghost orig: Seq<Animal> = self.world.animals@;
        let ghost foods: Seq<Food> = self.world.food@;
        let mut i: usize = 0;
        while i < n
            invariant
                0 <= i <= n,
                n == self.world.animals@.len(),
                orig.len() == n,
                self.generation == old(self).generation,
                self.generation_steps == old(self).generation_steps,
                self.prev_stats == old(self).prev_stats,
                self.evolver == old(self).evolver,
                self.world.food@ == foods,
                forall|k: int| 0 <= k < foods.len() ==> (#[trigger] foods[k]).wf(),
                forall|k: int| 0 <= k < n ==> (#[trigger] self.world.animals@[k]).wf(),
                forall|k: int| i <= k < n ==> #[trigger] self.world.animals@[k] == orig[k],
                forall|k: int|
                    0 <= k < i ==> brain_stepped(
                        orig[k],
                        #[trigger] self.world.animals@[k],
                        foods,
                    ),
            decreases n - i,
        {
            let ghost before: Seq<Animal> = self.world.animals@;
            let mut a: Animal = self.world.animals.remove(i);
            let ghost a0: Animal = a;
            proof {
                assert(a == before[i as int]);
                assert(a.wf());
            }
            let vision: Vec<i64> = a.eye.process_vision(a.x, a.y, a.rotation, &self.world.food);
            proof {
                lemma_shape_implies_chain(a.brain_repr(), 10, standard_layout());
                assert(vision@.len() == 10);
            }
            let ghost vis: Seq<i64> = vision@;
            let out: Vec<i64> = a.brain.forward(vision);
            proof {
                assert(crate::chromosome::genes_ok(vis)) by {
                    assert(forall|k: int|
                        0 <= k < vis.len() ==> 0 <= #[trigger] vis[k] <= crate::eye::NOTHING_SEEN);
                }
                lemma_net_out_ok(a.brain_repr(), 10, vis);
                assert(a.brain_repr().last() == a.brain_repr()[1]);
                assert(a.brain_repr()[1].len() == standard_layout()[1]);
                assert(standard_layout()[1] == 2usize);
                assert(out@.len() == 2);
                assert(out@ == brain_outputs(a0, foods));
            }
            let o0: i64 = out[0];
            let o1: i64 = out[1];
            let sa: i64 = if o0 < -MAX_ACCEL {
                -MAX_ACCEL
            } else if o0 > MAX_ACCEL {
                MAX_ACCEL
            } else {
                o0
            };
            let aa: i64 = if o1 < -MAX_ANGULAR_ACCEL {
                -MAX_ANGULAR_ACCEL
            } else if o1 > MAX_ANGULAR_ACCEL {
                MAX_ANGULAR_ACCEL
            } else {
                o1
            };
            let s2: i64 = a.speed + sa;
            a.speed = if s2 < MIN_SPEED {
                MIN_SPEED
            } else if s2 > MAX_SPEED {
                MAX_SPEED
            } else {
                s2
            };
            a.rotation = wrap_pi(a.rotation + aa);
            self.world.animals.insert(i, a);
            proof {
                assert(self.world.animals@ =~= before.update(i as int, a));
                assert(brain_stepped(a0, a, foods));
            }
            i = i + 1;
        }
    }

    /// Move every agent along its heading by its speed, wrapping both
    /// coordinates around the torus.
    pub fn move_animals(&mut self)
        requires
            old(self).wf(),
        ensures
            final(self).wf(),
            final(self).generation_spec() == old(self).generation_spec(),
            final(self).generation_steps_spec() == old(self).generation_steps_spec(),
            final(self).prev_stats_spec() == old(self).prev_stats_spec(),
            final(self).evolver_spec() == old(self).evolver_spec(),
            final(self).world_spec().food_spec() == old(self).world_spec().food_spec(),
            final(self).world_spec().animals_spec().len() == old(
                self,
            ).world_spec().animals_spec().len(),
            forall|i: int|
                0 <= i < final(self).world_spec().animals_spec().len() ==> moved(
                    old(self).world_spec().animals_spec()[i],
                    #[trigger] final(self).world_spec().animals_spec()[i],
                ),
    {
        let n: usize = self.world.animals.len();
        let ghost orig: Seq<Animal> = self.world.animals@;
        let mut i: usize = 0;
        while i < n
            invariant
                0 <= i <= n,
                n == self.world.animals@.len(),
                orig.len() == n,
                self.generation == old(self).generation,
                self.generation_steps == old(self).generation_steps,
                self.prev_stats == old(self).prev_stats,
                self.evolver == old(self).evolver,
                self.world.food@ == old(self).world.food@,
                forall|k: int| 0 <= k < self.world.food@.len() ==> (#[trigger] self.world.food@[k]).wf(),
                forall|k: int| 0 <= k < n ==> (#[trigger] self.world.animals@[k]).wf(),
                forall|k: int| i <= k < n ==> #[trigger] self.world.animals@[k] == orig[k],
                forall|k: int|
                    0 <= k < i ==> moved(orig[k], #[trigger] self.world.animals@[k]),
            decreases n - i,
        {
            let ghost before: Seq<Animal> = self.world.animals@;
            let mut a: Animal = self.world.animals.remove(i);
            let ghost a0: Animal = a;
            proof {
                assert(a == before[i as int]);
                assert(a.wf());
            }
            let c: i64 = cos_fx(a.rotation);
            let s: i64 = sin_fx(a.rotation);
            let dx: i64 = fx_mul(c, a.speed);
            let dy: i64 = fx_mul(s, a.speed);
            proof {
                lemma_fx_mul_le_factor(c as int, a.speed as int);
                lemma_fx_mul_le_factor(s as int, a.speed as int);
                assert(abs_i(dx as int) <= MAX_SPEED);
                assert(abs_i(dy as int) <= MAX_SPEED);
            }
            a.x = wrap_unit(a.x + dx);
            a.y = wrap_unit(a.y + dy);
            self.world.animals.insert(i, a);
            proof {
                assert(self.world.animals@ =~= before.update(i as int, a));
                assert(moved(a0, a));
            }
            i = i + 1;
        }
    }

    /// One full generational replacement: snapshot every agent into an
    /// individual scored by its consumption, breed a new population of the
    /// same size, decode it into fresh agents, relocate every food item, and
    /// record the outgoing generation's statistics. Fails, with nothing
    /// mutated, exactly where no agent consumed anything, since the weighted
    /// selection then has no positive weight to draw by.
    pub fn evolve(&mut self, rng: &mut RandomSource) -> (r: Result<(), GaError>)
        requires
            old(self).wf(),
            old(self).generation_spec() < u32::MAX,
        ensures
            match r {
                Ok(()) => {
                    &&& final(self).wf()
                    &&& (exists|i: int|
                        0 <= i < old(self).world_spec().animals_spec().len() && (
                        #[trigger] old(self).world_spec().animals_spec()[i]).consumed_spec() > 0)
                    &&& final(self).world_spec().animals_spec().len() == old(
                        self,
                    ).world_spec().animals_spec().len()
                    &&& final(self).world_spec().food_spec().len() == old(
                        self,
                    ).world_spec().food_spec().len()
                    &&& forall|i: int|
                        0 <= i < final(self).world_spec().animals_spec().len() ==> (
                        #[trigger] final(self).world_spec().animals_spec()[i]).consumed_spec()
                            == 0
                    &&& final(self).generation_spec() == old(self).generation_spec() + 1
                    &&& final(self).generation_steps_spec() == 0
                    &&& final(self).evolver_spec() == old(self).evolver_spec()
                    &&& population_evolved(
                        old(self).world_spec().animals_spec(),
                        old(self).evolver_spec().mutation_method_spec().strength_spec(),
                        final(self).world_spec().animals_spec(),
                    )
                    &&& match final(self).prev_stats_spec() {
                        Some(s) => {
                            &&& s.max_spec() == max_of(
                                animal_fitnesses(old(self).world_spec().animals_spec()),
                            )
                            &&& s.min_spec() == min_of(
                                animal_fitnesses(old(self).world_spec().animals_spec()),
                            )
                            &&& s.mean_spec() == mean_of(
                                animal_fitnesses(old(self).world_spec().animals_spec()),
                            )
                            &&& s.std_spec() == std_of(
                                animal_fitnesses(old(self).world_spec().animals_spec()),
                            )
                        },
                        None => false,
                    }
                },
                Err(e) => {
                    &&& *final(self) == *old(self)
                    &&& e == GaError::ZeroFitnessSum
                    &&& forall|i: int|
                        0 <= i < old(self).world_spec().animals_spec().len() ==> (
                        #[trigger] old(self).world_spec().animals_spec()[i]).consumed_spec() == 0
                },
            },
    {
        let n: usize = self.world.animals.len();
        let ghost orig: Seq<Animal> = self.world.animals@;

        // snapshot the live population
        let mut individuals: Vec<AnimalIndividual> = Vec::new();
        let mut i: usize = 0;
        while i < n
            invariant
                0 <= i <= n,
                n == self.world.animals@.len(),
                orig == self.world.animals@,
                forall|k: int| 0 <= k < n ==> (#[trigger] orig[k]).wf(),
                individuals@.len() == i,
                forall|k: int|
                    0 <= k < i ==> (#[trigger] individuals@[k]).chromosome_spec() == flatten_net(
                        orig[k].brain_repr(),
                    ),
                forall|k: int|
                    0 <= k < i ==> (#[trigger] individuals@[k]).fitness_spec() == crate::fx::clip(
                        (orig[k].consumed_spec() as int) * (FX_ONE as int),
                    ),
                forall|k: int|
                    0 <= k < i ==> (#[trigger] individuals@[k]).has_chromosome()
                        && individuals@[k].chromosome_spec().len() == 262,
            decreases n - i,
        {
            let ind: AnimalIndividual = AnimalIndividual::from_animal(&self.world.animals[i]);
            proof {
                lemma_flatten_net_len(orig[i as int].brain_repr(), 10, standard_layout());
                lemma_standard_gene_len();
            }
            individuals.push(ind);
            i = i + 1;
        }
        proof {
            assert(nonneg_fitness(individuals@)) by {
                assert forall|k: int|
                    0 <= k < individuals@.len() implies #[trigger] individuals@[k].fitness_spec()
                    >= 0 by {
                    assert((orig[k].consumed_spec() as int) * (FX_ONE as int) >= 0)
                        by (nonlinear_arith)
                        requires
                            orig[k].consumed_spec() >= 0,
                    ;
                    assert(crate::fx::clip(
                        (orig[k].consumed_spec() as int) * (FX_ONE as int),
                    ) >= 0);
                }
            }
            assert(uniform_chromosomes(individuals@, 262));
            assert(individuals@[0].chromosome_spec().len() == 262);
        }

        // the outgoing generation's statistics
        let stats: GenerationStatistics = GenerationStatistics::from_population(&individuals);
        proof {
            assert(fits_of(individuals@) =~= animal_fitnesses(orig));
        }

        // breed the replacement population; on a fault nothing is mutated
        let bred: Vec<AnimalIndividual> = match self.evolver.evolve(rng, &individuals) {
            Ok(bred) => bred,
            Err(e) => {
                proof {
                    lemma_total_pos(individuals@);
                    assert forall|k: int|
                        0 <= k < orig.len() implies (#[trigger] orig[k]).consumed_spec()
                        == 0 by {
                        if orig[k].consumed_spec() > 0 {
                            assert((orig[k].consumed_spec() as int) * (FX_ONE as int)
                                >= FX_ONE as int) by (nonlinear_arith)
                                requires
                                    orig[k].consumed_spec() >= 1,
                            ;
                            assert(individuals@[k].fitness_spec() > 0);
                        }
                    }
                }
                return Err(e);
            },
        };
        let ghost strength: int = self.evolver.mutation_method_spec().strength_spec();
        proof {
            lemma_total_pos(individuals@);
            let w = choose|k: int|
                0 <= k < individuals@.len() && #[trigger] individuals@[k].fitness_spec() > 0;
            assert(orig[w].consumed_spec() > 0) by {
                if orig[w].consumed_spec() == 0 {
                    assert((0int) * (FX_ONE as int) == 0) by (nonlinear_arith);
                    assert(individuals@[w].fitness_spec() == 0);
                }
            }
            assert(chromosomes_of(individuals@) =~= brain_pool(orig));
        }

        // decode the bred individuals into fresh agents
        let mut new_animals: Vec<Animal> = Vec::new();
        let mut k: usize = 0;
        while k < n
            invariant
                0 <= k <= n,
                n == bred@.len(),
                n == orig.len(),
                uniform_chromosomes(bred@, 262),
                forall|j: int|
                    0 <= j < n ==> bred_from(
                        brain_pool(orig),
                        animal_fitnesses(orig),
                        strength,
                        (#[trigger] bred@[j]).chromosome_spec(),
                    ),
                new_animals@.len() == k,
                forall|j: int| 0 <= j < k ==> (#[trigger] new_animals@[j]).wf(),
                forall|j: int| 0 <= j < k ==> (#[trigger] new_animals@[j]).consumed_spec() == 0,
                forall|j: int| 0 <= j < k ==> (#[trigger] new_animals@[j]).speed_spec() == MIN_SPEED,
                forall|j: int|
                    0 <= j < k ==> brain_bred_from(orig, strength, #[trigger] new_animals@[j]),
            decreases n - k,
        {
            proof {
                lemma_standard_gene_len();
            }
            let a: Animal = bred[k].into_animal(rng);
            proof {
                assert(bred_from(
                    brain_pool(orig),
                    animal_fitnesses(orig),
                    strength,
                    bred@[k as int].chromosome_spec(),
                ));
                assert(a.brain_repr() == decode_net(
                    10,
                    standard_layout(),
                    bred@[k as int].chromosome_spec(),
                    0,
                ));
                assert(brain_bred_from(orig, strength, a));
            }
            new_animals.push(a);
            k = k + 1;
        }
        let ghost na: Seq<Animal> = new_animals@;
        self.world.animals = new_animals;

        // relocate every food item
        let m: usize = self.world.food.len();
        let mut j: usize = 0;
        while j < m
            invariant
                0 <= j <= m,
                m == self.world.food@.len(),
                self.generation == old(self).generation,
                self.generation_steps == old(self).generation_steps,
                self.prev_stats == old(self).prev_stats,
                self.evolver == old(self).evolver,
                self.world.animals@ == na,
                self.world.animals@.len() == n,
                1 <= n <= MAX_POPULATION,
                forall|k2: int| 0 <= k2 < n ==> (#[trigger] self.world.animals@[k2]).wf(),
                forall|k2: int|
                    0 <= k2 < n ==> (#[trigger] self.world.animals@[k2]).consumed_spec() == 0,
                forall|k2: int| 0 <= k2 < m ==> (#[trigger] self.world.food@[k2]).wf(),
            decreases m - j,
        {
            let ghost before: Seq<Food> = self.world.food@;
            let mut f: Food = self.world.food.remove(j);
            f.randomize_position(rng);
            self.world.food.insert(j, f);
            proof {
                assert(self.world.food@ =~= before.update(j as int, f));
            }
            j = j + 1;
        }

        self.generation = self.generation + 1;
        self.generation_steps = 0;
        self.prev_stats = Some(stats);
        proof {
            assert(population_evolved(orig, strength, self.world.animals@));
        }
        Ok(())
    }

    /// One simulated tick: trigger an evolution when the step budget is
    /// reached, then resolve consumption, run every brain, and move every
    /// agent, in that order, each phase reading the previous phase's world.
    /// Fails, with nothing mutated, exactly where an evolution was due but
    /// no agent had consumed anything.
    pub fn step(&mut self, rng: &mut RandomSource) -> (r: Result<(), GaError>)
        requires
            old(self).wf(),
            old(self).generation_spec() < u32::MAX,
        ensures
            match r {
                Ok(()) => {
                    &&& final(self).wf()
                    &&& final(self).world_spec().animals_spec().len() == old(
                        self,
                    ).world_spec().animals_spec().len()
                    &&& final(self).world_spec().food_spec().len() == old(
                        self,
                    ).world_spec().food_spec().len()
                    &&& final(self).generation_steps_spec() == (
                    if old(self).generation_steps_spec() + 1 >= GENERATION_STEPS {
                        0int
                    } else {
                        old(self).generation_steps_spec() + 1
                    })
                    &&& final(self).generation_spec() == (
                    if old(self).generation_steps_spec() + 1 >= GENERATION_STEPS {
                        old(self).generation_spec() + 1
                    } else {
                        old(self).generation_spec() as int
                    })
                    &&& final(self).evolver_spec() == old(self).evolver_spec()
                    &&& (old(self).generation_steps_spec() + 1 < GENERATION_STEPS
                        ==> final(self).prev_stats_spec() == old(self).prev_stats_spec())
                    &&& (old(self).generation_steps_spec() + 1 >= GENERATION_STEPS
                        ==> match final(self).prev_stats_spec() {
                        Some(s) => {
                            &&& s.max_spec() == max_of(
                                animal_fitnesses(old(self).world_spec().animals_spec()),
                            )
                            &&& s.min_spec() == min_of(
                                animal_fitnesses(old(self).world_spec().animals_spec()),
                            )
                            &&& s.mean_spec() == mean_of(
                                animal_fitnesses(old(self).world_spec().animals_spec()),
                            )
                            &&& s.std_spec() == std_of(
                                animal_fitnesses(old(self).world_spec().animals_spec()),
                            )
                        },
                        None => false,
                    })
                    &&& exists|
                        ae: Seq<Animal>,
                        fe: Seq<Food>,
                        a1: Seq<Animal>,
                        f1: Seq<Food>,
                        a2: Seq<Animal>,
                    |
                        {
                            &&& (if old(self).generation_steps_spec() + 1 >= GENERATION_STEPS {
                                population_evolved(
                                    old(self).world_spec().animals_spec(),
                                    old(
                                        self,
                                    ).evolver_spec().mutation_method_spec().strength_spec(),
                                    ae,
                                ) && fe.len() == old(self).world_spec().food_spec().len()
                            } else {
                                ae == old(self).world_spec().animals_spec() && fe == old(
                                    self,
                                ).world_spec().food_spec()
                            })
                            &&& #[trigger] consumption_resolved(ae, fe, a1, f1)
                            &&& #[trigger] brains_processed(a1, f1, a2)
                            &&& animals_moved(a2, final(self).world_spec().animals_spec())
                            &&& final(self).world_spec().food_spec() == f1
                        }
                },
                Err(e) => {
                    &&& *final(self) == *old(self)
                    &&& e == GaError::ZeroFitnessSum
                    &&& old(self).generation_steps_spec() + 1 >= GENERATION_STEPS
                    &&& forall|i: int|
                        0 <= i < old(self).world_spec().animals_spec().len() ==> (
                        #[trigger] old(self).world_spec().animals_spec()[i]).consumed_spec() == 0
                },
            },
    {
        if self.generation_steps + 1 >= GENERATION_STEPS {
            match self.evolve(rng) {
                Ok(()) => {},
                Err(e) => {
                    return Err(e);
                },
            }
        } else {
            self.generation_steps = self.generation_steps + 1;
        }
        let ghost ae: Seq<Animal> = self.world.animals@;
        let ghost fe: Seq<Food> = self.world.food@;
        self.eat_food(rng);
        let ghost a1: Seq<Animal> = self.world.animals@;
        let ghost f1: Seq<Food> = self.world.food@;
        self.process_brains();
        let ghost a2: Seq<Animal> = self.world.animals@;
        self.move_animals();
        proof {
            assert(consumption_resolved(ae, fe, a1, f1));
            assert(brains_processed(a1, f1, a2));
            assert(animals_moved(a2, self.world.animals@));
            assert(self.world.food@ == f1);
        }
        Ok(())
    }
}

} // verus!
