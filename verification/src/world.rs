//! The world: the full agent collection and the food collection.

use vstd::prelude::*;
use crate::animal::Animal;
use crate::food::Food;
use crate::rng::RandomSource;

verus! {

/// Every agent and every food item is well formed.
pub open spec fn world_wf(animals: Seq<Animal>, food: Seq<Food>) -> bool {
    &&& forall|i: int| 0 <= i < animals.len() ==> (#[trigger] animals[i]).wf()
    &&& forall|i: int| 0 <= i < food.len() ==> (#[trigger] food[i]).wf()
}

/// The world: agents are wholesale-replaced at generation boundaries; food
/// items persist, only their positions change.
pub struct World {
    pub(crate) animals: Vec<Animal>,
    pub(crate) food: Vec<Food>,
}

impl World {
    /// The agents, in order.
    pub open(crate) spec fn animals_spec(&self) -> Seq<Animal> {
        self.animals@
    }

    /// The food items, in order.
    pub open(crate) spec fn food_spec(&self) -> Seq<Food> {
        self.food@
    }

    pub open spec fn wf(&self) -> bool {
        world_wf(self.animals_spec(), self.food_spec())
    }

    /// A world of the given numbers of random agents and random food items.
    pub fn random(rng: &mut RandomSource, num_animals: u8, num_food: u8) -> (r: World)
        ensures
            r.wf(),
            r.animals_spec().len() == num_animals,
            r.food_spec().len() == num_food,
            forall|i: int|
                0 <= i < r.animals_spec().len() ==> (#[trigger] r.animals_spec()[i]).consumed_spec()
                    == 0,
    {
        let mut animals: Vec<Animal> = Vec::new();
        let mut i: u8 = 0;
        while i < num_animals
            invariant
                0 <= i <= num_animals,
                animals@.len() == i,
                forall|k: int| 0 <= k < i ==> (#[trigger] animals@[k]).wf(),
                forall|k: int| 0 <= k < i ==> (#[trigger] animals@[k]).consumed_spec() == 0,
            decreases num_animals - i,
        {
            let a: Animal = Animal::random(rng);
            animals.push(a);
            i = i + 1;
        }
        let mut food: Vec<Food> = Vec::new();
        let mut j: u8 = 0;
        while j < num_food
            invariant
                0 <= j <= num_food,
                food@.len() == j,
                forall|k: int| 0 <= k < j ==> (#[trigger] food@[k]).wf(),
            decreases num_food - j,
        {
            let f: Food = Food::new_random(rng);
            food.push(f);
            j = j + 1;
        }
        World { animals, food }
    }

    /// The agents, for read-only inspection.
    pub fn animals(&self) -> (r: &Vec<Animal>)
        ensures
            r@ == self.animals_spec(),
    {
        &self.animals
    }

    /// The food items, for read-only inspection.
    pub fn food(&self) -> (r: &Vec<Food>)
        ensures
            r@ == self.food_spec(),
    {
        &self.food
    }
}

} // verus!
