use vstd::prelude::*;

use crate::input::Key;

verus! {

/// One of the four directions in which the snake can move.
#[derive(Clone, Copy, PartialEq, Eq, Structural, Debug)]
pub enum Direction {
    Left,
    Right,
    Up,
    Down,
}

/// The direction pointing the other way.
pub open spec fn opposite_of(d: Direction) -> Direction {
    match d {
        Direction::Left => Direction::Right,
        Direction::Right => Direction::Left,
        Direction::Up => Direction::Down,
        Direction::Down => Direction::Up,
    }
}

/// The direction an arrow key asks for; other keys ask for none.
pub open spec fn key_direction(k: Key) -> Option<Direction> {
    match k {
        Key::Left => Some(Direction::Left),
        Key::Right => Some(Direction::Right),
        Key::Up => Some(Direction::Up),
        Key::Down => Some(Direction::Down),
        _ => None,
    }
}

impl Direction {
    pub fn opposite(self) -> (r: Self)
        ensures
            r == opposite_of(self),
    {
        match self {
            Direction::Left => Direction::Right,
            Direction::Right => Direction::Left,
            Direction::Up => Direction::Down,
            Direction::Down => Direction::Up,
        }
    }

    /// The direction of an arrow key, or `None` for any other key.
    pub fn from_key(k: Key) -> (r: Option<Self>)
        ensures
            r == key_direction(k),
    {
        match k {
            Key::Left => Some(Direction::Left),
            Key::Right => Some(Direction::Right),
            Key::Up => Some(Direction::Up),
            Key::Down => Some(Direction::Down),
            _ => None,
        }
    }
}

/// Turning around twice faces the original way.
pub proof fn lemma_opposite_involutive(d: Direction)
    ensures
        opposite_of(opposite_of(d)) == d,
{
}

} // verus!
