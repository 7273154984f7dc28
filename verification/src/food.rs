//! A food item: a position on the torus, relocated rather than destroyed
//! when eaten.

use vstd::prelude::*;
use crate::fx::FX_ONE;
use crate::rng::RandomSource;

verus! {

/// A toroidal coordinate: within `[0, 1)` in fixed-point steps.
pub open spec fn coord_ok(v: i64) -> bool {
    0 <= v < FX_ONE
}

/// A food item, identified by its position alone.
pub struct Food {
    pub(crate) x: i64,
    pub(crate) y: i64,
}

impl Food {
    /// The first coordinate of the position.
    pub open(crate) spec fn x_spec(&self) -> i64 {
        self.x
    }

    /// The second coordinate of the position.
    pub open(crate) spec fn y_spec(&self) -> i64 {
        self.y
    }

    /// The position lies on the torus.
    pub open spec fn wf(&self) -> bool {
        coord_ok(self.x_spec()) && coord_ok(self.y_spec())
    }

    pub fn new(x: i64, y: i64) -> (r: Food)
        requires
            coord_ok(x),
            coord_ok(y),
        ensures
            r.x_spec() == x,
            r.y_spec() == y,
            r.wf(),
    {
        Food { x, y }
    }

    /// A food item at a uniformly random position.
    pub fn new_random(rng: &mut RandomSource) -> (r: Food)
        ensures
            r.wf(),
    {
        let x: i64 = rng.unit_coord();
        let y: i64 = rng.unit_coord();
        Food { x, y }
    }

    /// Move this food item to a fresh uniformly random position.
    pub fn randomize_position(&mut self, rng: &mut RandomSource)
        ensures
            final(self).wf(),
    {
        self.x = rng.unit_coord();
        self.y = rng.unit_coord();
    }

    /// The position, as a coordinate pair.
    pub fn position(&self) -> (r: (i64, i64))
        ensures
            r.0 == self.x_spec(),
            r.1 == self.y_spec(),
    {
        (self.x, self.y)
    }
}

} // verus!
