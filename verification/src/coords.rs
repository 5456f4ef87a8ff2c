//! Integer coordinates of grid cells.

use std::cmp::Ordering;
use vstd::prelude::*;
use vstd::std_specs::cmp::PartialOrdSpecImpl;

verus! {

/// Position of a cell: `x` runs along the world's first axis, `y` along its
/// third (the world's second axis is elevation and is no grid axis).
///
/// Two positions are equal where both components are. Positions are ordered
/// by `x`, and among equal `x` by `y`.
#[derive(Clone, Copy, Debug, PartialEq, Eq, Structural, Ord, Hash)]
pub struct GridCoords {
    pub x: i8,
    pub y: i8,
}

impl PartialOrd for GridCoords {
    fn partial_cmp(&self, other: &GridCoords) -> (order: Option<Ordering>) {
        if self.x < other.x {
            Some(Ordering::Less)
        } else if self.x > other.x {
            Some(Ordering::Greater)
        } else if self.y < other.y {
            Some(Ordering::Less)
        } else if self.y > other.y {
            Some(Ordering::Greater)
        } else {
            Some(Ordering::Equal)
        }
    }
}

impl PartialOrdSpecImpl for GridCoords {
    open spec fn obeys_partial_cmp_spec() -> bool {
        true
    }

    open spec fn partial_cmp_spec(&self, other: &GridCoords) -> Option<Ordering> {
        if self.x < other.x || (self.x == other.x && self.y < other.y) {
            Some(Ordering::Less)
        } else if self.x > other.x || (self.x == other.x && self.y > other.y) {
            Some(Ordering::Greater)
        } else {
            Some(Ordering::Equal)
        }
    }
}

/// Distance between two integer points when only axis-parallel unit steps
/// are allowed.
pub open spec fn manhattan(x1: int, y1: int, x2: int, y2: int) -> nat {
    let dx: int = if x2 >= x1 { x2 - x1 } else { x1 - x2 };
    let dy: int = if y2 >= y1 { y2 - y1 } else { y1 - y2 };
    (dx + dy) as nat
}

impl GridCoords {
    /// The cell at the centre of every grid.
    pub fn origin() -> (c: Self)
        ensures
            c.x == 0,
            c.y == 0,
    {
        Self { x: 0, y: 0 }
    }

    pub fn new(x: i8, y: i8) -> (c: Self)
        ensures
            c.x == x,
            c.y == y,
    {
        Self { x, y }
    }

    /// Manhattan distance to `dest` as a mathematical integer.
    pub open spec fn dist(self, dest: Self) -> nat {
        manhattan(self.x as int, self.y as int, dest.x as int, dest.y as int)
    }

    /// Number of unit steps between `self` and `dest`. The result is wider
    /// than a coordinate because two corners of the coordinate range lie 510
    /// steps apart.
    pub fn manhattan_dist(&self, dest: Self) -> (d: u16)
        ensures
            d == self.dist(dest),
    {
        let dx: i16 = dest.x as i16 - self.x as i16;
        let dy: i16 = dest.y as i16 - self.y as i16;
        let ax: i16 = if dx < 0 { -dx } else { dx };
        let ay: i16 = if dy < 0 { -dy } else { dy };
        (ax + ay) as u16
    }

    /// The neighbour one step along positive `y`.
    pub fn up(&self) -> (c: Self)
        requires
            self.y < i8::MAX,
        ensures
            c.x == self.x,
            c.y == self.y + 1,
    {
        Self { x: self.x, y: self.y + 1 }
    }

    /// The neighbour one step along negative `y`.
    pub fn down(&self) -> (c: Self)
        requires
            self.y > i8::MIN,
        ensures
            c.x == self.x,
            c.y == self.y - 1,
    {
        Self { x: self.x, y: self.y - 1 }
    }

    /// The neighbour one step along negative `x`.
    pub fn left(&self) -> (c: Self)
        requires
            self.x > i8::MIN,
        ensures
            c.x == self.x - 1,
            c.y == self.y,
    {
        Self { x: self.x - 1, y: self.y }
    }

    /// The neighbour one step along positive `x`.
    pub fn right(&self) -> (c: Self)
        requires
            self.x < i8::MAX,
        ensures
            c.x == self.x + 1,
            c.y == self.y,
    {
        Self { x: self.x + 1, y: self.y }
    }
}

} // verus!
