//! Positions on the game grid.
use vstd::prelude::*;
use super::config::{GRID_SIZE, PLAYFIELD_HEIGHT, PLAYFIELD_WIDTH};
use super::direction::{opposite, Direction};

verus! {

/// A position on the game grid
#[derive(Debug, Clone, Copy, PartialEq, Eq, Structural)]
pub struct Location {
    pub x: i32,
    pub y: i32,
}

/// A coordinate inside `[0, limit)` and aligned to the grid.
pub open spec fn on_axis(v: int, limit: int) -> bool {
    0 <= v < limit && v % (GRID_SIZE as int) == 0
}

/// A location is a cell of the playfield.
pub open spec fn on_grid(l: Location) -> bool {
    on_axis(l.x as int, PLAYFIELD_WIDTH as int) && on_axis(l.y as int, PLAYFIELD_HEIGHT as int)
}

/// The step of a direction along the x axis.
pub open spec fn step_x(d: Direction) -> int {
    match d {
        Direction::West => -(GRID_SIZE as int),
        Direction::East => GRID_SIZE as int,
        _ => 0,
    }
}

/// The step of a direction along the y axis.
pub open spec fn step_y(d: Direction) -> int {
    match d {
        Direction::North => -(GRID_SIZE as int),
        Direction::South => GRID_SIZE as int,
        _ => 0,
    }
}

/// One coordinate moved by a step, wrapped around the playfield edge.
pub open spec fn wrap(v: int, limit: int) -> int {
    if v < 0 {
        limit - GRID_SIZE as int
    } else if v >= limit {
        0
    } else {
        v
    }
}

/// The neighbouring location in a direction, wrapping around the playfield edges.
pub open spec fn neighbour(l: Location, d: Direction) -> Location {
    Location {
        x: wrap(l.x + step_x(d), PLAYFIELD_WIDTH as int) as i32,
        y: wrap(l.y + step_y(d), PLAYFIELD_HEIGHT as int) as i32,
    }
}

/// `rand::Rng::gen_range` on the thread-local generator over `0..bound`:
/// a value in that range (the range is not empty).
#[verifier::external_body]
fn random_below(bound: i32) -> (r: i32)
    requires
        bound > 0,
    ensures
        0 <= r < bound,
{
    rand::Rng::gen_range(&mut rand::thread_rng(), 0..bound)
}

impl Location {
    /// Create a new location
    pub fn new(x: i32, y: i32) -> (r: Location)
        ensures
            r == (Location { x, y }),
    {
        Location { x, y }
    }

    /// Get the location adjacent to this one in the given direction.
    /// Wraps around the playfield edges.
    pub fn adjacent(&self, direction: Direction) -> (r: Location)
        requires
            i32::MIN + GRID_SIZE <= self.x <= i32::MAX - GRID_SIZE,
            i32::MIN + GRID_SIZE <= self.y <= i32::MAX - GRID_SIZE,
        ensures
            r == neighbour(*self, direction),
    {
        let (dx, dy): (i32, i32) = match direction {
            Direction::Still => (0, 0),
            Direction::North => (0, -GRID_SIZE),
            Direction::South => (0, GRID_SIZE),
            Direction::West => (-GRID_SIZE, 0),
            Direction::East => (GRID_SIZE, 0),
        };
        let mut new_x: i32 = self.x + dx;
        let mut new_y: i32 = self.y + dy;
        if new_x < 0 {
            new_x = PLAYFIELD_WIDTH - GRID_SIZE;
        } else if new_x >= PLAYFIELD_WIDTH {
            new_x = 0;
        }
        if new_y < 0 {
            new_y = PLAYFIELD_HEIGHT - GRID_SIZE;
        } else if new_y >= PLAYFIELD_HEIGHT {
            new_y = 0;
        }
        Location::new(new_x, new_y)
    }

    /// A random cell of the playfield.
    pub fn random() -> (r: Location)
        ensures
            on_grid(r),
    {
        let max_x: i32 = PLAYFIELD_WIDTH / GRID_SIZE;
        let max_y: i32 = PLAYFIELD_HEIGHT / GRID_SIZE;
        let x = random_below(max_x) * GRID_SIZE;
        let y = random_below(max_y) * GRID_SIZE;
        assert(x % 10 == 0 && y % 10 == 0) by (nonlinear_arith)
            requires x == (x / 10) * 10, y == (y / 10) * 10;
        Location::new(x, y)
    }
}

/// Moving from a cell of the playfield stays on the playfield.
pub proof fn lemma_neighbour_on_grid(l: Location, d: Direction)
    requires
        on_grid(l),
    ensures
        on_grid(neighbour(l, d)),
{
}

/// Moving one step and then one step back returns to the start, on every
/// cell of the playfield, also across the wrapped edges.
pub proof fn lemma_step_back(l: Location, d: Direction, back: Direction)
    requires
        on_grid(l),
        opposite(d, back),
    ensures
        neighbour(neighbour(l, d), back) == l,
{
}

} // verus!
