//! Directions and offsets on the grid.
//!
//! Coordinates are `i32` and wrap around at both ends, so every sum and difference
//! of offsets is defined and the grid closes on itself.

use vstd::prelude::*;

verus! {

/// One of the four cardinal directions. North is towards larger `y`, East towards larger `x`.
#[derive(Clone, Copy, Debug, PartialEq, Eq, Hash, Structural)]
pub enum Direction {
    North,
    East,
    South,
    West,
}

/// A pair `(x, y)`: a displacement between two tiles, or a tile's position counted from the
/// agent's starting tile.
#[derive(Clone, Copy, Debug, PartialEq, Eq, Hash, Structural)]
pub struct TileOffset(pub i32, pub i32);

/// The direction a quarter turn to the left of `dir`.
pub open spec fn left_of(dir: Direction) -> Direction {
    match dir {
        Direction::West => Direction::South,
        Direction::North => Direction::West,
        Direction::East => Direction::North,
        Direction::South => Direction::East,
    }
}

/// The direction facing away from `dir`.
pub open spec fn opposite_of(dir: Direction) -> Direction {
    match dir {
        Direction::West => Direction::East,
        Direction::North => Direction::South,
        Direction::East => Direction::West,
        Direction::South => Direction::North,
    }
}

/// The offset `n` tiles along `dir`.
pub open spec fn extend_spec(dir: Direction, n: i32) -> TileOffset {
    match dir {
        Direction::North => TileOffset(0, n),
        Direction::East => TileOffset(n, 0),
        Direction::South => TileOffset(0, 0i32.wrapping_sub(n)),
        Direction::West => TileOffset(0i32.wrapping_sub(n), 0),
    }
}

/// The single step along `dir`.
pub open spec fn unit(dir: Direction) -> TileOffset {
    extend_spec(dir, 1)
}

/// Component-wise sum, wrapping around.
pub open spec fn plus(a: TileOffset, b: TileOffset) -> TileOffset {
    TileOffset(a.0.wrapping_add(b.0), a.1.wrapping_add(b.1))
}

/// Component-wise difference, wrapping around.
pub open spec fn minus(a: TileOffset, b: TileOffset) -> TileOffset {
    TileOffset(a.0.wrapping_sub(b.0), a.1.wrapping_sub(b.1))
}

/// The direction whose single step is `off`, if there is one.
pub open spec fn heading_of(off: TileOffset) -> Option<Direction> {
    if off.0 == 0 && off.1 == 1 {
        Some(Direction::North)
    } else if off.0 == 1 && off.1 == 0 {
        Some(Direction::East)
    } else if off.0 == 0 && off.1 == -1 {
        Some(Direction::South)
    } else if off.0 == -1 && off.1 == 0 {
        Some(Direction::West)
    } else {
        None
    }
}

pub fn get_left(dir: Direction) -> (r: Direction)
    ensures
        r == left_of(dir),
{
    match dir {
        Direction::West => Direction::South,
        Direction::North => Direction::West,
        Direction::East => Direction::North,
        Direction::South => Direction::East,
    }
}

pub fn get_opposite(dir: Direction) -> (r: Direction)
    ensures
        r == opposite_of(dir),
{
    match dir {
        Direction::West => Direction::East,
        Direction::North => Direction::South,
        Direction::East => Direction::West,
        Direction::South => Direction::North,
    }
}

impl Direction {
    /// The offset `n` tiles along `self`.
    pub fn extend(self, n: i32) -> (r: TileOffset)
        ensures
            r == extend_spec(self, n),
    {
        match self {
            Direction::North => TileOffset(0, n),
            Direction::East => TileOffset(n, 0),
            Direction::South => TileOffset(0, 0i32.wrapping_sub(n)),
            Direction::West => TileOffset(0i32.wrapping_sub(n), 0),
        }
    }
}

impl TileOffset {
    pub fn add(self, other: TileOffset) -> (r: TileOffset)
        ensures
            r == plus(self, other),
    {
        TileOffset(self.0.wrapping_add(other.0), self.1.wrapping_add(other.1))
    }

    pub fn sub(self, other: TileOffset) -> (r: TileOffset)
        ensures
            r == minus(self, other),
    {
        TileOffset(self.0.wrapping_sub(other.0), self.1.wrapping_sub(other.1))
    }

    /// The direction of a single cardinal step. `None` for the zero offset, a diagonal,
    /// or a step of any other length.
    pub fn try_to_direction(self) -> (r: Option<Direction>)
        ensures
            r == heading_of(self),
            r is Some <==> (self.0 == 0 && (self.1 == 1 || self.1 == -1)) || (self.1 == 0 && (
            self.0 == 1 || self.0 == -1)),
    {
        if self.0 == 0 && self.1 == 1 {
            Some(Direction::North)
        } else if self.0 == 1 && self.1 == 0 {
            Some(Direction::East)
        } else if self.0 == 0 && self.1 == -1 {
            Some(Direction::South)
        } else if self.0 == -1 && self.1 == 0 {
            Some(Direction::West)
        } else {
            None
        }
    }
}

/// A single step converts back to the direction it was made from.
pub proof fn lemma_heading_of_unit(d: Direction)
    ensures
        heading_of(extend_spec(d, 1)) == Some(d),
{
}

/// An offset converts to a direction only if it is a single step along that direction:
/// the zero offset, diagonals and longer offsets do not convert.
pub proof fn lemma_heading_only_of_units(off: TileOffset)
    ensures
        off == TileOffset(0, 0) ==> heading_of(off) is None,
        off.0 != 0 && off.1 != 0 ==> heading_of(off) is None,
        off.0 < -1 || off.0 > 1 || off.1 < -1 || off.1 > 1 ==> heading_of(off) is None,
        forall|d: Direction| heading_of(off) == Some(d) <==> off == extend_spec(d, 1),
{
}

/// Four quarter turns to the left come back to the start, and two make a half turn.
pub proof fn lemma_left_cycle(d: Direction)
    ensures
        left_of(left_of(left_of(left_of(d)))) == d,
        left_of(left_of(d)) == opposite_of(d),
        opposite_of(opposite_of(d)) == d,
        left_of(d) != d,
{
}

/// Stepping by an offset and taking the difference gives the offset back.
pub proof fn lemma_minus_plus(a: TileOffset, b: TileOffset)
    ensures
        minus(plus(a, b), a) == b,
{
}

} // verus!
