//! A snake: its body, heading, and life.
use vstd::prelude::*;
use std::collections::VecDeque;
use super::config::{color_text, snake_color, DEFAULT_SNAKE_LENGTH, MAX_SNAKE_LENGTH, SNAKE_COLOR_COUNT};
use super::direction::{opposite, Direction};
use super::location::{lemma_neighbour_on_grid, neighbour, on_grid, Location};
use super::protocol::{SnakeData, SnakePosition};

verus! {

/// A snake in the game
#[derive(Debug, Clone)]
pub struct Snake {
    /// Unique identifier
    pub id: u32,
    /// Snake color (hex format)
    pub color: String,
    /// Current movement direction
    pub direction: Direction,
    /// Snake body segments (head is front, tail is back)
    pub body: VecDeque<Location>,
    /// Whether the snake is alive
    pub alive: bool,
}

/// The observable state of a snake.
pub struct SnakeState {
    pub id: u32,
    pub color: Seq<char>,
    pub direction: Direction,
    pub body: Seq<Location>,
    pub alive: bool,
}

impl View for Snake {
    type V = SnakeState;

    open spec fn view(&self) -> SnakeState {
        SnakeState {
            id: self.id,
            color: self.color@,
            direction: self.direction,
            body: self.body@,
            alive: self.alive,
        }
    }
}

/// The invariant of a snake's state: it has a head, is no longer than the
/// maximum, and lies on the playfield.
pub open spec fn state_wf(x: SnakeState) -> bool {
    &&& 1 <= x.body.len() <= MAX_SNAKE_LENGTH
    &&& all_on_grid(x.body)
}

/// `n` cells starting at `head` and going west, one grid step at a time.
pub open spec fn trail(head: Location, n: nat) -> Seq<Location>
    decreases n,
{
    if n == 0 {
        Seq::empty()
    } else {
        seq![head] + trail(neighbour(head, Direction::West), (n - 1) as nat)
    }
}

/// Every cell of a body lies on the playfield.
pub open spec fn all_on_grid(body: Seq<Location>) -> bool {
    forall|i: int| 0 <= i < body.len() ==> on_grid(#[trigger] body[i])
}

/// The body after one step: a new head in front, the tail cell dropped.
pub open spec fn moved_body(body: Seq<Location>, d: Direction) -> Seq<Location> {
    seq![neighbour(body[0], d)] + body.drop_last()
}

/// The body after a reward: the tail cell doubled, up to the maximum length.
pub open spec fn rewarded_body(body: Seq<Location>) -> Seq<Location> {
    if body.len() < MAX_SNAKE_LENGTH {
        body.push(body.last())
    } else {
        body
    }
}

/// The color of the snake with a given identifier (ids count from 1).
pub open spec fn color_of_id(id: u32) -> Seq<char> {
    color_text(((id - 1) % (SNAKE_COLOR_COUNT as int)) as int)
}

proof fn lemma_trail(head: Location, n: nat)
    requires
        on_grid(head),
    ensures
        trail(head, n).len() == n,
        all_on_grid(trail(head, n)),
        n > 0 ==> trail(head, n)[0] == head,
    decreases n,
{
    if n > 0 {
        lemma_neighbour_on_grid(head, Direction::West);
        lemma_trail(neighbour(head, Direction::West), (n - 1) as nat);
        let t = trail(head, n);
        assert forall|i: int| 0 <= i < t.len() implies on_grid(#[trigger] t[i]) by {
            if i > 0 {
                assert(t[i] == trail(neighbour(head, Direction::West), (n - 1) as nat)[i - 1]);
            }
        }
    }
}

/// The body of a new snake: `head` and the default length trailing west.
fn initial_body(head: Location) -> (body: VecDeque<Location>)
    requires
        on_grid(head),
    ensures
        body@ == trail(head, DEFAULT_SNAKE_LENGTH as nat),
        body@.len() == DEFAULT_SNAKE_LENGTH,
        all_on_grid(body@),
{
    let mut body: VecDeque<Location> = VecDeque::with_capacity(MAX_SNAKE_LENGTH);
    body.push_front(head);
    let mut current = head;
    let mut k: usize = 1;
    proof {
        lemma_trail(head, DEFAULT_SNAKE_LENGTH as nat);
        reveal_with_fuel(trail, 2);
        assert(body@ =~= trail(head, 1));
    }
    while k < DEFAULT_SNAKE_LENGTH
        invariant
            1 <= k <= DEFAULT_SNAKE_LENGTH,
            on_grid(head),
            on_grid(current),
            body@ + trail(neighbour(current, Direction::West), (DEFAULT_SNAKE_LENGTH - k) as nat)
                == trail(head, DEFAULT_SNAKE_LENGTH as nat),
            body@.len() == k,
            body@.last() == current,
        decreases DEFAULT_SNAKE_LENGTH - k,
    {
        let ghost rest = trail(neighbour(current, Direction::West), (DEFAULT_SNAKE_LENGTH - k) as nat);
        proof {
            lemma_neighbour_on_grid(current, Direction::West);
            assert(rest =~= seq![neighbour(current, Direction::West)] + trail(
                neighbour(neighbour(current, Direction::West), Direction::West),
                (DEFAULT_SNAKE_LENGTH - k - 1) as nat,
            ));
        }
        current = current.adjacent(Direction::West);
        body.push_back(current);
        k = k + 1;
        proof {
            assert(body@ + trail(neighbour(current, Direction::West), (DEFAULT_SNAKE_LENGTH - k) as nat)
                =~= trail(head, DEFAULT_SNAKE_LENGTH as nat));
        }
    }
    proof {
        assert(body@ =~= trail(head, DEFAULT_SNAKE_LENGTH as nat));
        lemma_trail(head, DEFAULT_SNAKE_LENGTH as nat);
    }
    body
}

impl Snake {
    /// The body segments, head first.
    pub open spec fn segments(&self) -> Seq<Location> {
        self.body@
    }

    /// The current heading.
    pub open spec fn heading(&self) -> Direction {
        self.direction
    }

    /// The identifier.
    pub open spec fn ident(&self) -> u32 {
        self.id
    }

    /// The color text.
    pub open spec fn paint(&self) -> Seq<char> {
        self.color@
    }

    /// Whether the snake is alive.
    pub open spec fn living(&self) -> bool {
        self.alive
    }

    /// The snake's invariant: it has a head, is no longer than the maximum,
    /// and lies on the playfield.
    pub open spec fn wf(&self) -> bool {
        &&& 1 <= self.segments().len() <= MAX_SNAKE_LENGTH
        &&& all_on_grid(self.segments())
    }

    /// A new living, unmoving snake with the given identifier: its head on a
    /// random cell and the default length trailing west of it.
    pub fn new(id: u32) -> (r: Snake)
        requires
            id >= 1,
        ensures
            r.wf(),
            r.ident() == id,
            r.paint() == color_of_id(id),
            r.segments() == trail(r.segments()[0], DEFAULT_SNAKE_LENGTH as nat),
            on_grid(r.segments()[0]),
            r.heading() == Direction::Still,
            r.living(),
    {
        let color_index: usize = ((id - 1) as usize) % SNAKE_COLOR_COUNT;
        let color = snake_color(color_index).to_string();
        let head = Location::random();
        let body = initial_body(head);
        Snake { id, color, direction: Direction::Still, body, alive: true }
    }

    /// Get the snake's head location
    pub fn head(&self) -> (r: Location)
        requires
            self.wf(),
        ensures
            r == self.segments()[0],
    {
        self.body[0]
    }

    /// Get all body locations (for collision detection)
    pub fn body(&self) -> (r: &VecDeque<Location>)
        ensures
            r@ == self.segments(),
    {
        &self.body
    }

    /// Get the current direction
    pub fn direction(&self) -> (r: Direction)
        ensures
            r == self.heading(),
    {
        self.direction
    }

    /// Check if the snake is alive
    pub fn is_alive(&self) -> (r: bool)
        ensures
            r == self.living(),
    {
        self.alive
    }

    /// Set the snake's direction; a reversal of the current heading is ignored.
    pub fn set_direction(&mut self, new_direction: Direction)
        ensures
            final(self).heading() == (if opposite(old(self).heading(), new_direction) {
                old(self).heading()
            } else {
                new_direction
            }),
            final(self).segments() == old(self).segments(),
            final(self).living() == old(self).living(),
            final(self).ident() == old(self).ident(),
            final(self).paint() == old(self).paint(),
    {
        if !self.direction.is_opposite(&new_direction) {
            self.direction = new_direction;
        }
    }

    /// Move one step (called each game tick): a living, moving snake gains a
    /// new head in its heading and loses its tail cell; otherwise nothing changes.
    pub fn update(&mut self)
        requires
            old(self).wf(),
        ensures
            final(self).wf(),
            final(self).segments() == (if old(self).living() && old(self).heading() != Direction::Still {
                moved_body(old(self).segments(), old(self).heading())
            } else {
                old(self).segments()
            }),
            final(self).heading() == old(self).heading(),
            final(self).living() == old(self).living(),
            final(self).ident() == old(self).ident(),
            final(self).paint() == old(self).paint(),
    {
        if !self.alive || !self.direction.is_moving() {
            return;
        }
        let ghost before = self.body@;
        let new_head = self.head().adjacent(self.direction);
        proof {
            lemma_neighbour_on_grid(before[0], self.direction);
        }
        self.body.push_front(new_head);
        let _ = self.body.pop_back();
        proof {
            assert(self.body@ =~= moved_body(before, self.direction));
            assert forall|i: int| 0 <= i < self.body@.len() implies on_grid(#[trigger] self.body@[i]) by {
                if i > 0 {
                    assert(self.body@[i] == before[i - 1]);
                }
            }
        }
    }

    /// Kill the snake
    pub fn kill(&mut self)
        ensures
            !final(self).living(),
            final(self).segments() == old(self).segments(),
            final(self).heading() == old(self).heading(),
            final(self).ident() == old(self).ident(),
            final(self).paint() == old(self).paint(),
    {
        self.alive = false;
    }

    /// Reward the snake (grow one cell at the tail, up to the maximum length).
    pub fn reward(&mut self)
        requires
            old(self).wf(),
        ensures
            final(self).wf(),
            final(self).segments() == rewarded_body(old(self).segments()),
            final(self).heading() == old(self).heading(),
            final(self).living() == old(self).living(),
            final(self).ident() == old(self).ident(),
            final(self).paint() == old(self).paint(),
    {
        let n = self.body.len();
        if n < MAX_SNAKE_LENGTH {
            let tail = self.body[n - 1];
            self.body.push_back(tail);
        }
    }

    /// Reset to the initial state: a living, unmoving snake whose head is on
    /// a random cell and whose default length trails west of it, as a new
    /// snake is.
    pub fn reset(&mut self)
        ensures
            final(self).wf(),
            final(self).segments() == trail(final(self).segments()[0], DEFAULT_SNAKE_LENGTH as nat),
            on_grid(final(self).segments()[0]),
            final(self).heading() == Direction::Still,
            final(self).living(),
            final(self).ident() == old(self).ident(),
            final(self).paint() == old(self).paint(),
    {
        let head = Location::random();
        self.body = initial_body(head);
        self.direction = Direction::Still;
        self.alive = true;
    }

    /// Convert to SnakeData for protocol messages
    pub fn to_data(&self) -> (r: SnakeData)
        ensures
            r.id == self.ident(),
            r.color@ == self.paint(),
            r.body@.len() == self.segments().len(),
            forall|i: int| 0 <= i < r.body@.len() ==> (#[trigger] r.body@[i]).x == self.segments()[i].x
                && r.body@[i].y == self.segments()[i].y,
    {
        let mut body: Vec<SnakePosition> = Vec::new();
        let n = self.body.len();
        let mut i: usize = 0;
        while i < n
            invariant
                n == self.segments().len(),
                i <= n,
                body@.len() == i,
                forall|k: int| 0 <= k < i ==> (#[trigger] body@[k]).x == self.segments()[k].x
                    && body@[k].y == self.segments()[k].y,
            decreases n - i,
        {
            let loc = self.body[i];
            body.push(SnakePosition { x: loc.x, y: loc.y });
            i = i + 1;
        }
        SnakeData { id: self.id, color: self.color.clone(), body }
    }
}

/// Steering never turns a snake straight back: whatever command arrives,
/// the heading afterwards is not the reverse of the heading before.
pub proof fn lemma_no_reversal(before: Direction, command: Direction)
    ensures
        !opposite(before, if opposite(before, command) { before } else { command }),
{
}

/// A step keeps the body's length and puts the new head next to the old one.
pub proof fn lemma_step_keeps_length(body: Seq<Location>, d: Direction)
    requires
        body.len() >= 1,
    ensures
        moved_body(body, d).len() == body.len(),
        moved_body(body, d)[0] == neighbour(body[0], d),
{
}

} // verus!
