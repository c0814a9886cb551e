//! Compass facing of a rover: one of the four cardinal directions, with the
//! two cyclic turn transitions and the single-letter textual encoding.

use vstd::prelude::*;

verus! {

/// A facing on the plateau. Turning left or right steps through the cycle
/// North, East, South, West.
#[derive(Debug, Clone, Copy, PartialEq, Eq, Structural)]
pub enum Direction {
    North,
    East,
    South,
    West,
}

impl Direction {
    /// The facing after one left (counter-clockwise) turn.
    pub open spec fn spec_turn_left(self) -> Direction {
        match self {
            Direction::North => Direction::West,
            Direction::West => Direction::South,
            Direction::South => Direction::East,
            Direction::East => Direction::North,
        }
    }

    /// The facing after one right (clockwise) turn.
    pub open spec fn spec_turn_right(self) -> Direction {
        match self {
            Direction::North => Direction::East,
            Direction::East => Direction::South,
            Direction::South => Direction::West,
            Direction::West => Direction::North,
        }
    }

    /// The single-letter encoding used by the textual pose format.
    pub open spec fn spec_letter(self) -> char {
        match self {
            Direction::North => 'N',
            Direction::East => 'E',
            Direction::South => 'S',
            Direction::West => 'W',
        }
    }

    /// The single-letter encoding of this facing.
    pub fn letter(&self) -> (c: char)
        ensures
            c == self.spec_letter(),
    {
        match self {
            Direction::North => 'N',
            Direction::East => 'E',
            Direction::South => 'S',
            Direction::West => 'W',
        }
    }

    /// The facing encoded by `c`, if `c` is one of the four facing letters.
    pub fn from_letter(c: char) -> (d: Option<Direction>)
        ensures
            d matches Some(dir) ==> dir.spec_letter() == c,
            d is None <==> (c != 'N' && c != 'E' && c != 'S' && c != 'W'),
    {
        match c {
            'N' => Some(Direction::North),
            'E' => Some(Direction::East),
            'S' => Some(Direction::South),
            'W' => Some(Direction::West),
            _ => None,
        }
    }
}

/// Four left turns, and four right turns, are each the identity, and a left
/// turn undoes a right turn and the other way round: the two turn transitions
/// are mutually inverse four-cycles.
pub proof fn lemma_turn_cycles(d: Direction)
    ensures
        d.spec_turn_left().spec_turn_left().spec_turn_left().spec_turn_left() == d,
        d.spec_turn_right().spec_turn_right().spec_turn_right().spec_turn_right() == d,
        d.spec_turn_left().spec_turn_right() == d,
        d.spec_turn_right().spec_turn_left() == d,
{
}

} // verus!
