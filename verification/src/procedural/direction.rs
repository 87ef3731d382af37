use vstd::prelude::*;

verus! {

/// A compass direction on the grid. North is towards larger `y`, east
/// towards larger `x`.
#[derive(Clone, Copy, Debug, PartialEq, Eq, Hash, Structural)]
pub enum Direction {
    North,
    East,
    South,
    West,
}

/// The coordinates of a cell: column `x`, row `y`.
#[derive(Clone, Copy, Debug, PartialEq, Eq, Hash, Structural)]
pub struct CellLocation {
    pub x: usize,
    pub y: usize,
}

impl Direction {
    /// The direction pointing the other way.
    pub open spec fn spec_opposite(self) -> Direction {
        match self {
            Direction::North => Direction::South,
            Direction::East => Direction::West,
            Direction::South => Direction::North,
            Direction::West => Direction::East,
        }
    }

    /// The step this direction takes, as `(dx, dy)`.
    pub open spec fn spec_unit(self) -> (int, int) {
        match self {
            Direction::North => (0, 1),
            Direction::East => (1, 0),
            Direction::South => (0, -1),
            Direction::West => (-1, 0),
        }
    }

    #[verifier::when_used_as_spec(spec_opposite)]
    pub fn opposite(self) -> (d: Direction)
        ensures
            d == self.spec_opposite(),
    {
        match self {
            Direction::North => Direction::South,
            Direction::East => Direction::West,
            Direction::South => Direction::North,
            Direction::West => Direction::East,
        }
    }

    /// The step this direction takes, as `(dx, dy)`.
    pub fn unit(self) -> (u: (i32, i32))
        ensures
            u.0 == self.spec_unit().0,
            u.1 == self.spec_unit().1,
    {
        match self {
            Direction::North => (0, 1),
            Direction::East => (1, 0),
            Direction::South => (0, -1),
            Direction::West => (-1, 0),
        }
    }

    /// The four directions, clockwise from north.
    pub fn all() -> (dirs: Vec<Direction>)
        ensures
            dirs@ == seq![Direction::North, Direction::East, Direction::South, Direction::West],
    {
        vec![Direction::North, Direction::East, Direction::South, Direction::West]
    }
}

/// Turning around twice gives the direction one started with, and the two
/// steps cancel.
pub proof fn lemma_opposite_is_involution(d: Direction)
    ensures
        d.opposite().opposite() == d,
        d.opposite() != d,
        d.opposite().spec_unit().0 == -d.spec_unit().0,
        d.opposite().spec_unit().1 == -d.spec_unit().1,
{
}

} // verus!
