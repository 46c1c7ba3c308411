//! Directions of movement.
use vstd::prelude::*;
use crate::text::{all_ascii, ascii_lower_all, lowercase_text, str_eq, to_lowercase};

verus! {

/// Direction of movement.
#[derive(Debug, Clone, Copy, PartialEq, Eq, Structural)]
pub enum Direction {
    /// No movement
    Still,
    /// Moving up
    North,
    /// Moving down
    South,
    /// Moving left
    West,
    /// Moving right
    East,
}

/// The direction that a lower-cased command word names.
pub open spec fn direction_of_word(w: Seq<char>) -> Option<Direction> {
    if w == "none"@ {
        Some(Direction::Still)
    } else if w == "north"@ || w == "up"@ {
        Some(Direction::North)
    } else if w == "south"@ || w == "down"@ {
        Some(Direction::South)
    } else if w == "west"@ || w == "left"@ {
        Some(Direction::West)
    } else if w == "east"@ || w == "right"@ {
        Some(Direction::East)
    } else {
        None
    }
}

/// Two directions point against each other.
pub open spec fn opposite(a: Direction, b: Direction) -> bool {
    match (a, b) {
        (Direction::North, Direction::South) => true,
        (Direction::South, Direction::North) => true,
        (Direction::East, Direction::West) => true,
        (Direction::West, Direction::East) => true,
        _ => false,
    }
}

impl Direction {
    /// Parses a direction word, ignoring case.
    pub fn from_str(s: &str) -> (r: Option<Direction>)
        ensures
            r == direction_of_word(lowercase_text(s@)),
            all_ascii(s@) ==> r == direction_of_word(ascii_lower_all(s@)),
    {
        let lower = to_lowercase(s);
        let w = lower.as_str();
        proof {
            reveal_strlit("none");
            reveal_strlit("north");
            reveal_strlit("up");
            reveal_strlit("south");
            reveal_strlit("down");
            reveal_strlit("west");
            reveal_strlit("left");
            reveal_strlit("east");
            reveal_strlit("right");
        }
        if str_eq(w, "none") {
            Some(Direction::Still)
        } else if str_eq(w, "north") || str_eq(w, "up") {
            Some(Direction::North)
        } else if str_eq(w, "south") || str_eq(w, "down") {
            Some(Direction::South)
        } else if str_eq(w, "west") || str_eq(w, "left") {
            Some(Direction::West)
        } else if str_eq(w, "east") || str_eq(w, "right") {
            Some(Direction::East)
        } else {
            None
        }
    }

    /// Whether this direction is opposite to another.
    pub fn is_opposite(&self, other: &Direction) -> (r: bool)
        ensures
            r == opposite(*self, *other),
    {
        match (self, other) {
            (Direction::North, Direction::South) => true,
            (Direction::South, Direction::North) => true,
            (Direction::East, Direction::West) => true,
            (Direction::West, Direction::East) => true,
            _ => false,
        }
    }

    /// Whether the direction moves at all.
    pub fn is_moving(&self) -> (r: bool)
        ensures
            r == (*self != Direction::Still),
    {
        match self {
            Direction::Still => false,
            _ => true,
        }
    }
}

} // verus!
