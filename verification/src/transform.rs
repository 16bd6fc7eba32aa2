//! The immutable-after-ready mapping between continuous world positions and
//! integer grid coordinates.  World y grows upward while grid y grows
//! downward from the top of the level, so the y axis is flipped through the
//! level height.

use vstd::prelude::*;

verus! {

use crate::geom::Pos;
use crate::geom::WorldVec;
use crate::math::floor_div_i64;
use vstd::arithmetic::div_mod::lemma_fundamental_div_mod;
use vstd::arithmetic::div_mod::lemma_fundamental_div_mod_converse;

/// Smallest cell edge the mapping accepts, in milli-pixels (one pixel).
pub const CELL_MIN: i64 = 1_000;

/// Largest cell edge the mapping accepts, in milli-pixels.
pub const CELL_MAX: i64 = 16_384;

/// Largest magnitude of the level origin and level height, in milli-pixels.
pub const LEVEL_LIMIT: i64 = 4_000_000;

/// World-to-grid transform: `origin` is the world position of the level's
/// lower-left corner, `height` the level height and `cell` the cell edge,
/// all in milli-pixels.  Once `ready`, the mapping does not change for the
/// lifetime of the loaded level.
pub struct TransformToGrid {
    pub origin: WorldVec,
    pub height: i64,
    pub cell: i64,
    pub ready: bool,
}

impl TransformToGrid {
    pub open spec fn wf(self) -> bool {
        &&& CELL_MIN <= self.cell <= CELL_MAX
        &&& -LEVEL_LIMIT <= self.origin.x <= LEVEL_LIMIT
        &&& -LEVEL_LIMIT <= self.origin.y <= LEVEL_LIMIT
        &&& 0 <= self.height <= LEVEL_LIMIT
    }

    /// The grid cell containing world position `pos` (floor on both axes,
    /// with the y axis flipped through the level height).
    pub open spec fn spec_from_world(self, pos: WorldVec) -> Pos {
        Pos {
            x: ((pos.x - self.origin.x) / self.cell as int) as i32,
            y: ((self.origin.y + self.height - pos.y) / self.cell as int) as i32,
        }
    }

    /// The world position of the centre of grid cell `p`.
    pub open spec fn spec_to_world(self, p: Pos) -> WorldVec {
        WorldVec {
            x: (self.origin.x + self.cell * p.x + self.cell / 2) as i64,
            y: (self.origin.y + self.height - (self.cell * p.y + self.cell / 2)) as i64,
        }
    }

    pub fn new(origin: WorldVec, height: i64, cell: i64, ready: bool) -> (r: TransformToGrid)
        requires
            CELL_MIN <= cell <= CELL_MAX,
            -LEVEL_LIMIT <= origin.x <= LEVEL_LIMIT,
            -LEVEL_LIMIT <= origin.y <= LEVEL_LIMIT,
            0 <= height <= LEVEL_LIMIT,
        ensures
            r == (TransformToGrid { origin, height, cell, ready }),
            r.wf(),
    {
        TransformToGrid { origin, height, cell, ready }
    }

    /// Project a world position into grid space.
    pub fn from_world(&self, pos: WorldVec) -> (r: Pos)
        requires
            self.wf(),
            pos.in_world_range(),
        ensures
            r == self.spec_from_world(pos),
            r.in_coord_range(),
            r.in_cell_range(),
    {
        let nx: i64 = pos.x - self.origin.x;
        let ny: i64 = self.origin.y + self.height - pos.y;
        let qx = floor_div_i64(nx, self.cell);
        let qy = floor_div_i64(ny, self.cell);
        proof {
            lemma_quotient_small(nx as int, self.cell as int);
            lemma_quotient_small(ny as int, self.cell as int);
        }
        Pos { x: qx as i32, y: qy as i32 }
    }

    /// Project a grid cell back to the world position of its centre.
    pub fn to_world(&self, p: Pos) -> (r: WorldVec)
        requires
            self.wf(),
            p.in_coord_range(),
        ensures
            r == self.spec_to_world(p),
            p.in_cell_range() ==> -700_000_000 <= r.x <= 700_000_000 && -700_000_000 <= r.y
                <= 700_000_000,
    {
        let half: i64 = self.cell / 2;
        proof {
            assert(-0x1_0000_0000_0000 <= self.cell * p.x <= 0x1_0000_0000_0000) by (nonlinear_arith)
                requires
                    0 < self.cell <= CELL_MAX,
                    -1_000_000 <= p.x <= 1_000_000,
            ;
            assert(-0x1_0000_0000_0000 <= self.cell * p.y <= 0x1_0000_0000_0000) by (nonlinear_arith)
                requires
                    0 < self.cell <= CELL_MAX,
                    -1_000_000 <= p.y <= 1_000_000,
            ;
            if -40_000 <= p.x <= 40_000 && -40_000 <= p.y <= 40_000 {
                assert(-655_360_000 <= self.cell * p.x <= 655_360_000 && -655_360_000 <= self.cell
                    * p.y <= 655_360_000) by (nonlinear_arith)
                    requires
                        0 < self.cell <= CELL_MAX,
                        -40_000 <= p.x <= 40_000,
                        -40_000 <= p.y <= 40_000,
                ;
            }
        }
        WorldVec {
            x: self.origin.x + self.cell * p.x as i64 + half,
            y: self.origin.y + self.height - (self.cell * p.y as i64 + half),
        }
    }

    /// Projecting the centre of a cell back into grid space recovers exactly
    /// that cell: the two mappings are mutually inverse.
    pub proof fn lemma_round_trip(self, p: Pos)
        requires
            self.wf(),
        ensures
            self.spec_from_world(self.spec_to_world(p)) == p,
    {
        let c = self.cell as int;
        let half = c / 2;
        assert(0 <= half < c);
        let w = self.spec_to_world(p);
        assert(-0x4000_0000_0000_0000 < c * p.x < 0x4000_0000_0000_0000) by (nonlinear_arith)
            requires
                0 < c <= CELL_MAX,
                -0x8000_0000 <= p.x < 0x8000_0000,
        ;
        assert(-0x4000_0000_0000_0000 < c * p.y < 0x4000_0000_0000_0000) by (nonlinear_arith)
            requires
                0 < c <= CELL_MAX,
                -0x8000_0000 <= p.y < 0x8000_0000,
        ;
        assert(w.x - self.origin.x == c * p.x + half);
        assert(self.origin.y + self.height - w.y == c * p.y + half);
        assert(c * p.x == p.x * c) by (nonlinear_arith);
        assert(c * p.y == p.y * c) by (nonlinear_arith);
        lemma_fundamental_div_mod_converse(c * p.x + half, c, p.x as int, half);
        lemma_fundamental_div_mod_converse(c * p.y + half, c, p.y as int, half);
        assert((c * p.x + half) / c == p.x as int);
        assert((c * p.y + half) / c == p.y as int);
    }
}

/// Bounded dividends and a cell-sized divisor give small quotients, so grid
/// coordinates produced by `from_world` always fit the coordinate range.
proof fn lemma_quotient_small(a: int, b: int)
    requires
        CELL_MIN <= b,
        -30_000_000 <= a <= 30_000_000,
    ensures
        -30_001 <= a / b <= 30_000,
{
    lemma_fundamental_div_mod(a, b);
    let q = a / b;
    let r = a % b;
    assert(-30_001 <= q <= 30_000) by (nonlinear_arith)
        requires
            a == b * q + r,
            0 <= r < b,
            1_000 <= b,
            -30_000_000 <= a <= 30_000_000,
    ;
}

} // verus!
