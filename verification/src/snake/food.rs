//! Food items placed on the map.
use vstd::prelude::*;
use super::location::{on_grid, Location};
use super::protocol::FoodData;

verus! {

/// A food item on the map
#[derive(Debug, Clone, Copy, PartialEq, Eq, Structural)]
pub struct Food {
    /// Position of the food
    pub location: Location,
}

impl Food {
    /// Create a new food at a random cell of the playfield.
    pub fn new() -> (r: Food)
        ensures
            on_grid(r.location),
    {
        Food { location: Location::random() }
    }

    /// Create food at a specific location
    pub fn at(location: Location) -> (r: Food)
        ensures
            r.location == location,
    {
        Food { location }
    }

    /// Respawn food at a new random cell of the playfield.
    pub fn respawn(&mut self)
        ensures
            on_grid(final(self).location),
    {
        self.location = Location::random();
    }

    /// Check if a location matches the food position
    pub fn is_at(&self, loc: &Location) -> (r: bool)
        ensures
            r == (self.location == *loc),
    {
        self.location.x == loc.x && self.location.y == loc.y
    }

    /// Convert to FoodData for protocol messages
    pub fn to_data(&self) -> (r: FoodData)
        ensures
            r.x == self.location.x,
            r.y == self.location.y,
    {
        FoodData { x: self.location.x, y: self.location.y }
    }
}

/// The food a new game starts with: five items, numbered 0 to 4, each on
/// a random cell of the playfield.
pub fn initial_foods() -> (r: Vec<(u32, Food)>)
    ensures
        r@.len() == 5,
        forall|i: int| 0 <= i < 5 ==> (#[trigger] r@[i]).0 == i && on_grid(r@[i].1.location),
{
    let mut foods: Vec<(u32, Food)> = Vec::new();
    let mut i: u32 = 0;
    while i < 5
        invariant
            i <= 5,
            foods@.len() == i,
            forall|k: int| 0 <= k < i ==> (#[trigger] foods@[k]).0 == k && on_grid(foods@[k].1.location),
        decreases 5 - i,
    {
        foods.push((i, Food::new()));
        i = i + 1;
    }
    foods
}

} // verus!
