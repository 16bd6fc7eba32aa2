//! The traversability grid oracle: a boolean matrix indexed `cells[x][y]`
//! (`true` = passable) plus the set of cells currently occupied by moving
//! units.  Out-of-bounds lookups are defined to be not-traversable, so
//! pathfinding never indexes out of range and never treats unknown space as
//! open.

use vstd::prelude::*;

verus! {

use crate::geom::Pos;

/// Largest grid dimension the oracle accepts; keeps every cost and heuristic
/// computed over the grid far from overflow.
pub const GRID_DIM_LIMIT: usize = 512;

/// Whether cell `p` lies inside grid `g` and is open (passable).
pub open spec fn cell_open(g: Seq<Seq<bool>>, p: Pos) -> bool {
    &&& 0 <= p.x < g.len()
    &&& 0 <= p.y < g[p.x as int].len()
    &&& g[p.x as int][p.y as int]
}

/// A cell that lies outside the grid is never open: the deliberate fail-safe
/// of the oracle.
pub proof fn lemma_out_of_bounds_closed(g: Seq<Seq<bool>>, p: Pos)
    requires
        !(0 <= p.x < g.len()) || !(0 <= p.y < g[p.x as int].len()),
    ensures
        !cell_open(g, p),
{
}

/// The grid oracle: static traversability plus dynamic unit occupancy.
/// `ready` gates all consumers until the level geometry has been loaded.
pub struct TrespassableCells {
    pub cells: Vec<Vec<bool>>,
    pub units: Vec<Pos>,
    pub ready: bool,
}

impl TrespassableCells {
    /// The mathematical contents of the static grid.
    pub open spec fn grid(self) -> Seq<Seq<bool>> {
        self.cells@.map_values(|c: Vec<bool>| c@)
    }

    pub open spec fn wf(self) -> bool {
        &&& self.cells@.len() <= GRID_DIM_LIMIT
        &&& forall|i: int|
            0 <= i < self.cells@.len() ==> #[trigger] self.cells@[i]@.len() <= GRID_DIM_LIMIT
    }

    /// An empty, not-yet-ready oracle.
    pub fn empty() -> (r: TrespassableCells)
        ensures
            !r.ready,
            r.wf(),
            r.grid().len() == 0,
            r.units@.len() == 0,
    {
        TrespassableCells { cells: Vec::new(), units: Vec::new(), ready: false }
    }

    /// Whether `pos` is inside the grid and passable; `false` for any
    /// coordinate outside the backing matrix.
    pub fn is_trespassable(&self, pos: &Pos) -> (r: bool)
        ensures
            r == cell_open(self.grid(), *pos),
    {
        if pos.x < 0 || pos.y < 0 {
            return false;
        }
        let x = pos.x as usize;
        let y = pos.y as usize;
        if x < self.cells.len() {
            let column = &self.cells[x];
            if y < column.len() {
                return column[y];
            }
        }
        false
    }

    /// Rebuild the static grid from scratch: a full `width x height` matrix
    /// initialised `true` with `false` holes punched at the obstacle cells.
    pub fn from_obstacles(width: usize, height: usize, obstacles: &Vec<Pos>) -> (r:
        TrespassableCells)
        requires
            width <= GRID_DIM_LIMIT,
            height <= GRID_DIM_LIMIT,
        ensures
            r.ready,
            r.wf(),
            r.grid().len() == width,
            forall|i: int| 0 <= i < width ==> #[trigger] r.grid()[i].len() == height,
            forall|p: Pos|
                cell_open(r.grid(), p) <==> (0 <= p.x < width && 0 <= p.y < height
                    && !obstacles@.contains(p)),
            r.units@.len() == 0,
    {
        let mut cells: Vec<Vec<bool>> = Vec::new();
        for x in 0..width
            invariant
                cells@.len() == x,
                forall|i: int| 0 <= i < x ==> #[trigger] cells@[i]@.len() == height,
                forall|i: int, j: int|
                    0 <= i < x && 0 <= j < height ==> #[trigger] cells@[i]@[j] == !obstacles@.contains(
                        (Pos { x: i as i32, y: j as i32 }),
                    ),
        {
            let mut column: Vec<bool> = Vec::new();
            for y in 0..height
                invariant
                    column@.len() == y,
                    forall|j: int|
                        0 <= j < y ==> #[trigger] column@[j] == !obstacles@.contains(
                            (Pos { x: x as i32, y: j as i32 }),
                        ),
            {
                let blocked = contains_pos(obstacles, Pos { x: x as i32, y: y as i32 });
                column.push(!blocked);
            }
            cells.push(column);
        }
        let r = TrespassableCells { cells, units: Vec::new(), ready: true };
        proof {
            assert forall|p: Pos|
                cell_open(r.grid(), p) <==> (0 <= p.x < width && 0 <= p.y < height
                    && !obstacles@.contains(p)) by {
                if 0 <= p.x < width && 0 <= p.y < height {
                    assert(r.grid()[p.x as int][p.y as int] == !obstacles@.contains(
                        (Pos { x: p.x as i32, y: p.y as i32 }),
                    ));
                    assert((Pos { x: p.x as i32, y: p.y as i32 }) == p);
                }
            }
        }
        r
    }

    /// Clear-then-repopulate refresh of the dynamic occupancy set, run once
    /// per tick before any agent logic.
    pub fn update_units(&mut self, positions: &Vec<Pos>)
        ensures
            final(self).units@ == positions@,
            final(self).cells == old(self).cells,
            final(self).ready == old(self).ready,
    {
        self.units.clear();
        for k in 0..positions.len()
            invariant
                self.units@ == positions@.take(k as int),
                self.cells == old(self).cells,
                self.ready == old(self).ready,
        {
            self.units.push(positions[k]);
            proof {
                assert(self.units@ =~= positions@.take(k as int + 1));
            }
        }
        proof {
            assert(positions@.take(positions@.len() as int) =~= positions@);
        }
    }

    /// Whether a moving unit currently stands on `pos` (advisory only: the
    /// pathfinder does not treat occupied cells as blocked, matching the
    /// declared soft-constraint role of this set).
    pub fn is_occupied(&self, pos: &Pos) -> (r: bool)
        ensures
            r == self.units@.contains(*pos),
    {
        contains_pos(&self.units, *pos)
    }
}

/// Linear scan for a cell in a vector of cells.
pub fn contains_pos(v: &Vec<Pos>, p: Pos) -> (r: bool)
    ensures
        r == v@.contains(p),
{
    for k in 0..v.len()
        invariant
            forall|i: int| 0 <= i < k ==> v@[i] != p,
    {
        if v[k].x == p.x && v[k].y == p.y {
            return true;
        }
    }
    false
}

} // verus!
