//! Grid coordinates and fixed-point world vectors.

use vstd::prelude::*;

verus! {

use crate::math::lemma_square_bound;

/// Largest magnitude a grid coordinate may have.  Grids themselves are far
/// smaller; the bound only keeps intermediate arithmetic well inside `i64`.
pub const COORD_LIMIT: i32 = 1_000_000;

/// Largest magnitude a world coordinate (in milli-pixels) may have.
pub const WORLD_LIMIT: i64 = 16_777_216;

/// Largest magnitude of a grid coordinate that can arise in play: every cell
/// of a loaded grid, and every projection of an in-range world position.
pub const CELL_RANGE: i32 = 40_000;

/// An integer cell index in the traversability grid, distinct from the
/// continuous world position.
#[derive(Clone, Copy, PartialEq, Eq, Hash, Debug, Structural)]
pub struct Pos {
    pub x: i32,
    pub y: i32,
}

impl Pos {
    pub open spec fn in_coord_range(self) -> bool {
        -COORD_LIMIT <= self.x <= COORD_LIMIT && -COORD_LIMIT <= self.y <= COORD_LIMIT
    }

    pub open spec fn in_cell_range(self) -> bool {
        -CELL_RANGE <= self.x <= CELL_RANGE && -CELL_RANGE <= self.y <= CELL_RANGE
    }

    /// Squared Euclidean distance between two cells.
    pub open spec fn spec_dist2(self, other: Pos) -> int {
        (self.x - other.x) * (self.x - other.x) + (self.y - other.y) * (self.y - other.y)
    }

    pub fn new(x: i32, y: i32) -> (r: Pos)
        ensures
            r == (Pos { x, y }),
    {
        Pos { x, y }
    }

    pub fn dist2(self, other: Pos) -> (r: i64)
        requires
            self.in_coord_range(),
            other.in_coord_range(),
        ensures
            r == self.spec_dist2(other),
    {
        let dx: i64 = self.x as i64 - other.x as i64;
        let dy: i64 = self.y as i64 - other.y as i64;
        proof {
            lemma_square_bound(dx as int, 2 * COORD_LIMIT as int);
            lemma_square_bound(dy as int, 2 * COORD_LIMIT as int);
        }
        dx * dx + dy * dy
    }
}

/// A world-space vector in milli-pixels (one pixel is 1000 units).  Positions,
/// velocities and accelerations all use this representation.
#[derive(Clone, Copy, PartialEq, Eq, Debug, Structural)]
pub struct WorldVec {
    pub x: i64,
    pub y: i64,
}

impl WorldVec {
    pub open spec fn in_world_range(self) -> bool {
        -WORLD_LIMIT <= self.x <= WORLD_LIMIT && -WORLD_LIMIT <= self.y <= WORLD_LIMIT
    }

    /// Squared Euclidean length.
    pub open spec fn spec_len2(self) -> int {
        self.x * self.x + self.y * self.y
    }

    pub open spec fn spec_dist2(self, other: WorldVec) -> int {
        (self.x - other.x) * (self.x - other.x) + (self.y - other.y) * (self.y - other.y)
    }

    pub open spec fn is_zero(self) -> bool {
        self.x == 0 && self.y == 0
    }

    pub fn new(x: i64, y: i64) -> (r: WorldVec)
        ensures
            r == (WorldVec { x, y }),
    {
        WorldVec { x, y }
    }

    pub fn zero() -> (r: WorldVec)
        ensures
            r == (WorldVec { x: 0, y: 0 }),
    {
        WorldVec { x: 0, y: 0 }
    }

    pub fn len2(self) -> (r: i64)
        requires
            self.in_world_range(),
        ensures
            r == self.spec_len2(),
    {
        proof {
            lemma_square_bound(self.x as int, WORLD_LIMIT as int);
            lemma_square_bound(self.y as int, WORLD_LIMIT as int);
        }
        self.x * self.x + self.y * self.y
    }

    pub fn dist2(self, other: WorldVec) -> (r: i64)
        requires
            self.in_world_range(),
            other.in_world_range(),
        ensures
            r == self.spec_dist2(other),
    {
        let dx: i64 = self.x - other.x;
        let dy: i64 = self.y - other.y;
        proof {
            lemma_square_bound(dx as int, 2 * WORLD_LIMIT as int);
            lemma_square_bound(dy as int, 2 * WORLD_LIMIT as int);
        }
        dx * dx + dy * dy
    }
}

} // verus!
