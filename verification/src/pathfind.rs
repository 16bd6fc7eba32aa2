//! Grid pathfinding: successor generation with corner-cutting diagonals, the
//! 10/14 cost model, intent-dependent heuristics and goal tests, and the
//! A* search itself, performed by the `pathfinding` crate behind a trusted
//! wrapper.

use pathfinding::prelude::astar;
use vstd::prelude::*;

verus! {

use crate::agent::NpcState;
use crate::geom::Pos;
use crate::grid::TrespassableCells;
use crate::grid::cell_open;
use crate::transform::TransformToGrid;
use vstd::math::abs;

broadcast use vstd::seq_lib::lemma_seq_contains_after_push;

/// Cost of a cardinal move.
pub const CARDINAL_COST: i32 = 10;

/// Cost of a diagonal ("hard") move.
pub const DIAGONAL_COST: i32 = 14;

/// Squared distance (in cells) beyond which an escaping agent counts as
/// safely away from its pursuer.
pub const ESCAPE_RADIUS2: i64 = 25;

/// `b` is one of the four cardinal neighbours of `a`.
pub open spec fn cardinal_step(a: Pos, b: Pos) -> bool {
    ||| (b.x == a.x + 1 && b.y == a.y)
    ||| (b.x == a.x - 1 && b.y == a.y)
    ||| (b.x == a.x && b.y == a.y + 1)
    ||| (b.x == a.x && b.y == a.y - 1)
}

/// `b` is one of the four diagonal neighbours of `a`.
pub open spec fn diagonal_step(a: Pos, b: Pos) -> bool {
    &&& (b.x == a.x + 1 || b.x == a.x - 1)
    &&& (b.y == a.y + 1 || b.y == a.y - 1)
}

/// One legal move on grid `g`: a cardinal step onto an open cell, or a
/// corner-cutting diagonal step that is offered only when the diagonal cell
/// and both of its flanking cardinal cells are open.
pub open spec fn step_ok(g: Seq<Seq<bool>>, a: Pos, b: Pos) -> bool {
    ||| (cardinal_step(a, b) && cell_open(g, b))
    ||| (diagonal_step(a, b) && cell_open(g, b) && cell_open(g, (Pos { x: b.x, y: a.y }))
        && cell_open(g, (Pos { x: a.x, y: b.y })))
}

/// Cost of one legal move under the 10/14 model.
pub open spec fn step_cost(a: Pos, b: Pos) -> int {
    if cardinal_step(a, b) {
        CARDINAL_COST as int
    } else {
        DIAGONAL_COST as int
    }
}

/// The move at index `i` of path `p` is legal on `g`.
pub open spec fn path_step_at(g: Seq<Seq<bool>>, p: Seq<Pos>, i: int) -> bool {
    step_ok(g, p[i], p[i + 1])
}

/// `p` is a chain of legal moves on `g`.  The first cell is not required to
/// be open: an agent may path out of a cell it should not be standing on.
pub open spec fn path_ok(g: Seq<Seq<bool>>, p: Seq<Pos>) -> bool {
    &&& p.len() >= 1
    &&& forall|i: int| 0 <= i < p.len() - 1 ==> #[trigger] path_step_at(g, p, i)
}

/// Total cost of a path under the 10/14 model.
pub open spec fn path_cost(p: Seq<Pos>) -> int
    decreases p.len(),
{
    if p.len() <= 1 {
        0
    } else {
        step_cost(p[0], p[1]) + path_cost(p.drop_first())
    }
}

/// A path from `start` that ends exactly on `goal`.
pub open spec fn chase_path(g: Seq<Seq<bool>>, p: Seq<Pos>, start: Pos, goal: Pos) -> bool {
    &&& path_ok(g, p)
    &&& p.first() == start
    &&& p.last() == goal
}

/// `q` costs no more than any path from `start` to `goal` on `g`.
pub open spec fn path_minimal(g: Seq<Seq<bool>>, q: Seq<Pos>, start: Pos, goal: Pos) -> bool {
    forall|q2: Seq<Pos>| #[trigger] chase_path(g, q2, start, goal) ==> path_cost(q) <= path_cost(q2)
}

/// Whether cell `a` lies outside the safe radius around `goal`.
pub open spec fn spec_escaped(a: Pos, goal: Pos) -> bool {
    a.spec_dist2(goal) > ESCAPE_RADIUS2
}

/// A path from `start` that ends on any cell outside the safe radius around
/// `goal`.
pub open spec fn escape_path(g: Seq<Seq<bool>>, p: Seq<Pos>, start: Pos, goal: Pos) -> bool {
    &&& path_ok(g, p)
    &&& p.first() == start
    &&& spec_escaped(p.last(), goal)
}

/// Chase-style heuristic: Manhattan distance with the y component weighted
/// ten times heavier.
pub open spec fn spec_chase_weight(a: Pos, goal: Pos) -> int {
    abs(a.x - goal.x) + 10 * abs(a.y - goal.y) as int
}

impl Pos {
    /// The legal moves out of `self`: the open cardinal neighbours at cost
    /// 10, plus every open diagonal neighbour whose two flanking cardinal
    /// neighbours are open, at cost 14.  Exactly the `step_ok` relation, with
    /// no duplicates.
    pub fn successors(&self, grid: &TrespassableCells) -> (r: Vec<(Pos, i32)>)
        requires
            self.in_coord_range(),
        ensures
            forall|b: Pos, c: i32|
                r@.contains((b, c)) <==> step_ok(grid.grid(), *self, b) && c == step_cost(*self, b),
            forall|i: int, j: int| 0 <= i < j < r@.len() ==> r@[i].0 != r@[j].0,
    {
        let x = self.x;
        let y = self.y;
        let east = Pos { x: x + 1, y };
        let west = Pos { x: x - 1, y };
        let north = Pos { x, y: y + 1 };
        let south = Pos { x, y: y - 1 };
        let open_e = grid.is_trespassable(&east);
        let open_w = grid.is_trespassable(&west);
        let open_n = grid.is_trespassable(&north);
        let open_s = grid.is_trespassable(&south);
        let mut r: Vec<(Pos, i32)> = Vec::new();
        if open_e {
            r.push((east, CARDINAL_COST));
        }
        if open_w {
            r.push((west, CARDINAL_COST));
        }
        if open_n {
            r.push((north, CARDINAL_COST));
        }
        if open_s {
            r.push((south, CARDINAL_COST));
        }
        let ne = Pos { x: x + 1, y: y + 1 };
        let nw = Pos { x: x - 1, y: y + 1 };
        let se = Pos { x: x + 1, y: y - 1 };
        let sw = Pos { x: x - 1, y: y - 1 };
        let open_ne = open_e && open_n && grid.is_trespassable(&ne);
        let open_nw = open_w && open_n && grid.is_trespassable(&nw);
        let open_se = open_e && open_s && grid.is_trespassable(&se);
        let open_sw = open_w && open_s && grid.is_trespassable(&sw);
        if open_ne {
            r.push((ne, DIAGONAL_COST));
        }
        if open_nw {
            r.push((nw, DIAGONAL_COST));
        }
        if open_se {
            r.push((se, DIAGONAL_COST));
        }
        if open_sw {
            r.push((sw, DIAGONAL_COST));
        }
        proof {
            let g = grid.grid();
            let a = *self;
            assert forall|b: Pos, c: i32|
                r@.contains((b, c)) implies step_ok(g, a, b) && c == step_cost(a, b) by {
                assert(cardinal_step(a, east) && cardinal_step(a, west) && cardinal_step(a, north)
                    && cardinal_step(a, south));
                assert(!cardinal_step(a, ne) && !cardinal_step(a, nw) && !cardinal_step(a, se)
                    && !cardinal_step(a, sw));
            }
            assert forall|b: Pos, c: i32|
                step_ok(g, a, b) && c == step_cost(a, b) implies r@.contains((b, c)) by {
                if cardinal_step(a, b) {
                    assert(b == east || b == west || b == north || b == south);
                } else {
                    assert(diagonal_step(a, b));
                    assert(b == ne || b == nw || b == se || b == sw);
                    assert(!cardinal_step(a, b));
                    if b == ne {
                        assert(cell_open(g, (Pos { x: b.x, y: a.y })) == cell_open(g, east));
                        assert(cell_open(g, (Pos { x: a.x, y: b.y })) == cell_open(g, north));
                    }
                    if b == nw {
                        assert(cell_open(g, (Pos { x: b.x, y: a.y })) == cell_open(g, west));
                        assert(cell_open(g, (Pos { x: a.x, y: b.y })) == cell_open(g, north));
                    }
                    if b == se {
                        assert(cell_open(g, (Pos { x: b.x, y: a.y })) == cell_open(g, east));
                        assert(cell_open(g, (Pos { x: a.x, y: b.y })) == cell_open(g, south));
                    }
                    if b == sw {
                        assert(cell_open(g, (Pos { x: b.x, y: a.y })) == cell_open(g, west));
                        assert(cell_open(g, (Pos { x: a.x, y: b.y })) == cell_open(g, south));
                    }
                }
            }
        }
        r
    }

    /// Chase-style heuristic weight toward `end`.
    pub fn weight(&self, end: &Pos) -> (r: i32)
        requires
            self.in_coord_range(),
            end.in_coord_range(),
        ensures
            r == spec_chase_weight(*self, *end),
    {
        let dx: i32 = if self.x >= end.x {
            self.x - end.x
        } else {
            end.x - self.x
        };
        let dy: i32 = if self.y >= end.y {
            self.y - end.y
        } else {
            end.y - self.y
        };
        dx + 10 * dy
    }
}

/// Whether `a` already lies outside the safe radius around `goal`.
pub fn escaped(a: &Pos, goal: &Pos) -> (r: bool)
    requires
        a.in_coord_range(),
        goal.in_coord_range(),
    ensures
        r == spec_escaped(*a, *goal),
{
    a.dist2(*goal) > ESCAPE_RADIUS2
}

/// Escape-style heuristic value: a large constant minus the squared
/// distance to the pursuer, clamped so it always fits the cost type.
pub open spec fn spec_escape_weight(a: Pos, goal: Pos) -> int {
    9999 - (if a.spec_dist2(goal) > 1_000_000 {
        1_000_000
    } else {
        a.spec_dist2(goal)
    })
}

/// Escape-style heuristic: it biases the search toward cells far from
/// `goal`; no optimality claim rests on it.
pub fn escape_weight(a: &Pos, goal: &Pos) -> (r: i32)
    requires
        a.in_coord_range(),
        goal.in_coord_range(),
    ensures
        r == spec_escape_weight(*a, *goal),
{
    let d2 = a.dist2(*goal);
    proof {
        crate::math::lemma_square_bound(a.x - goal.x, 2 * 1_000_000int);
        crate::math::lemma_square_bound(a.y - goal.y, 2 * 1_000_000int);
    }
    let clamped: i64 = if d2 > 1_000_000 {
        1_000_000
    } else {
        d2
    };
    9999 - (clamped as i32)
}

/// Exact cell equality, for the chase goal test.
pub fn same_pos(a: &Pos, b: &Pos) -> (r: bool)
    ensures
        r == (*a == *b),
{
    a.x == b.x && a.y == b.y
}

/// The chase heuristic never exceeds the true 10/14 cost of reaching the
/// goal: one step changes `|dx|` by at most 1 and `|dy|` by at most 1, so the
/// weight drops by at most 10 on a cardinal step and 11 on a diagonal one.
/// This is the admissibility fact that backs the optimality clause of the
/// search wrapper below.
pub proof fn lemma_chase_weight_admissible(g: Seq<Seq<bool>>, q: Seq<Pos>, goal: Pos)
    requires
        path_ok(g, q),
        q.last() == goal,
    ensures
        spec_chase_weight(q.first(), goal) <= path_cost(q),
    decreases q.len(),
{
    if q.len() == 1 {
        assert(q.first() == goal);
    } else {
        let q2 = q.drop_first();
        assert(path_step_at(g, q, 0));
        assert(step_ok(g, q[0], q[1]));
        assert(path_ok(g, q2)) by {
            assert forall|i: int| 0 <= i < q2.len() - 1 implies #[trigger] path_step_at(g, q2, i) by {
                assert(path_step_at(g, q, i + 1));
                assert(q2[i] == q[i + 1] && q2[i + 1] == q[i + 2]);
            }
        }
        assert(q2.last() == goal);
        lemma_chase_weight_admissible(g, q2, goal);
        assert(q2.first() == q[1]);
        assert(spec_chase_weight(q[0], goal) <= step_cost(q[0], q[1]) + spec_chase_weight(
            q[1],
            goal,
        ));
    }
}

/// The step at index `i` of `p` is cardinal and lands on an open cell.
pub open spec fn chain_step_at(g: Seq<Seq<bool>>, p: Seq<Pos>, i: int) -> bool {
    cardinal_step(p[i], p[i + 1]) && cell_open(g, p[i + 1])
}

/// A chain of cardinal steps over open cells, the connectivity notion used
/// by the reachability laws.
pub open spec fn cardinal_chain(g: Seq<Seq<bool>>, p: Seq<Pos>) -> bool {
    &&& p.len() >= 1
    &&& forall|i: int| 0 <= i < p.len() - 1 ==> #[trigger] chain_step_at(g, p, i)
}

/// Law: cells joined by a chain of traversable cardinal steps are joined by
/// a legal path ending on the goal, of cost exactly 10 per step — so the
/// chase-style searches, which are complete and minimal over legal paths,
/// return a path of at most that cost whenever such a chain exists.
pub proof fn lemma_cardinal_connectivity_reaches_goal(
    g: Seq<Seq<bool>>,
    p: Seq<Pos>,
    start: Pos,
    goal: Pos,
)
    requires
        cardinal_chain(g, p),
        p.first() == start,
        p.last() == goal,
    ensures
        chase_path(g, p, start, goal),
        path_cost(p) == 10 * (p.len() - 1),
{
    lemma_cardinal_chain_is_path(g, p);
}

/// Law: no corner may be cut.  A diagonal move is never legal when the
/// diagonal cell or either of its two flanking cardinal cells is closed, so
/// no legal path slips diagonally past an L-shaped wall corner.
pub proof fn lemma_no_corner_cutting(g: Seq<Seq<bool>>, a: Pos, b: Pos)
    requires
        diagonal_step(a, b),
        !cell_open(g, b) || !cell_open(g, (Pos { x: b.x, y: a.y })) || !cell_open(
            g,
            (Pos { x: a.x, y: b.y }),
        ),
    ensures
        !step_ok(g, a, b),
{
}

/// A chain of traversable cardinal steps is a legal path whose cost is
/// exactly 10 per step, so cardinal connectivity guarantees the searches
/// below a witness path.
#[verifier::rlimit(50)]
pub proof fn lemma_cardinal_chain_is_path(g: Seq<Seq<bool>>, p: Seq<Pos>)
    requires
        cardinal_chain(g, p),
    ensures
        path_ok(g, p),
        path_cost(p) == 10 * (p.len() - 1),
    decreases p.len(),
{
    if p.len() == 1 {
    } else {
        let p2 = p.drop_first();
        assert(chain_step_at(g, p, 0));
        assert(cardinal_chain(g, p2)) by {
            assert forall|i: int| 0 <= i < p2.len() - 1 implies #[trigger] chain_step_at(g, p2, i) by {
                assert(chain_step_at(g, p, i + 1));
                assert(p2[i] == p[i + 1] && p2[i + 1] == p[i + 2]);
            }
        }
        lemma_cardinal_chain_is_path(g, p2);
        assert forall|i: int| 0 <= i < p.len() - 1 implies #[trigger] path_step_at(g, p, i) by {
            if i == 0 {
                assert(chain_step_at(g, p, 0));
            } else {
                assert(path_step_at(g, p2, i - 1));
                assert(p2[i - 1] == p[i] && p2[i] == p[i + 1]);
            }
        }
        assert(p2.first() == p[1] && step_cost(p[0], p[1]) == 10);
    }
}

/// Bounded grids keep every cell of a legal path inside the coordinate
/// range, provided its first cell is inside it.
pub proof fn lemma_path_cells_in_range(g: Seq<Seq<bool>>, p: Seq<Pos>)
    requires
        path_ok(g, p),
        p.first().in_coord_range(),
        g.len() <= crate::grid::GRID_DIM_LIMIT,
        forall|i: int| 0 <= i < g.len() ==> #[trigger] g[i].len() <= crate::grid::GRID_DIM_LIMIT,
    ensures
        forall|i: int| 0 <= i < p.len() ==> #[trigger] p[i].in_coord_range(),
{
    assert forall|i: int| 0 <= i < p.len() implies #[trigger] p[i].in_coord_range() by {
        if i > 0 {
            assert(path_step_at(g, p, i - 1));
            assert(step_ok(g, p[i - 1], p[i]));
            assert(cell_open(g, p[i]));
        }
    }
}

/// On a bounded grid, every cell of a legal path whose first cell is in the
/// playable cell range is itself in that range: later cells are open, hence
/// inside the grid's dimensions.
pub proof fn lemma_path_cells_in_cell_range(g: Seq<Seq<bool>>, p: Seq<Pos>)
    requires
        path_ok(g, p),
        p.first().in_cell_range(),
        g.len() <= crate::grid::GRID_DIM_LIMIT,
        forall|i: int| 0 <= i < g.len() ==> #[trigger] g[i].len() <= crate::grid::GRID_DIM_LIMIT,
    ensures
        forall|i: int| 0 <= i < p.len() ==> #[trigger] p[i].in_cell_range(),
{
    assert forall|i: int| 0 <= i < p.len() implies #[trigger] p[i].in_cell_range() by {
        if i > 0 {
            assert(path_step_at(g, p, i - 1));
            assert(step_ok(g, p[i - 1], p[i]));
            assert(cell_open(g, p[i]));
        }
    }
}

/// The result of the vendored A* search for a given grid, start, goal and
/// configuration (`escape` selects the inverted heuristic and the
/// outside-the-radius goal test).  The search is deterministic — an
/// unseeded hasher, an insertion-ordered node map and a deterministic heap
/// — so for fixed inputs the result is a mathematical function of them;
/// naming it makes reproducibility (equal inputs, identical path) part of
/// the contracts below.
pub uninterp spec fn astar_result(
    g: Seq<Seq<bool>>,
    sx: int,
    sy: int,
    gx: int,
    gy: int,
    escape: bool,
) -> Option<Seq<Pos>>;

/// An optional path as its mathematical view.
pub open spec fn view_opt(r: Option<Vec<Pos>>) -> Option<Seq<Pos>> {
    match r {
        Some(p) => Some(p@),
        None => None,
    }
}

/// Relies on `pathfinding::prelude::astar`, called with the verified
/// successor, heuristic and goal-test functions above.  Per its
/// documentation and source (v4.16): it returns a shortest path from
/// `start` to a node satisfying the goal test when the heuristic never
/// exceeds the real cost (the chase heuristic; see
/// `lemma_chase_weight_admissible`); it returns `None` only after
/// exhausting every reachable node, so `None` means no such path exists at
/// all; the goal test is applied to every node as it is popped, starting
/// with `start` itself — so a start that already satisfies it yields the
/// one-cell path, and every cell of a returned path except the last failed
/// the goal test; and it is deterministic (see `astar_result` above).  No
/// optimality is claimed for the escape configuration, whose heuristic is
/// deliberately inverted.
#[verifier::external_body]
fn astar_search(grid: &TrespassableCells, start: Pos, goal: Pos, escape: bool) -> (r: Option<Vec<Pos>>)
    requires
        grid.wf(),
        start.in_coord_range(),
        goal.in_coord_range(),
    ensures
        r matches Some(p) ==> p@.len() >= 1 && p@.first() == start && path_ok(grid.grid(), p@),
        r matches Some(p) ==> (escape ==> spec_escaped(p@.last(), goal)) && (!escape ==> p@.last()
            == goal),
        !escape ==> (r matches Some(p) ==> path_minimal(grid.grid(), p@, start, goal)),
        !escape && (exists|q: Seq<Pos>| chase_path(grid.grid(), q, start, goal)) ==> r is Some,
        escape && (exists|q: Seq<Pos>| escape_path(grid.grid(), q, start, goal)) ==> r is Some,
        r matches Some(p) ==> (!escape && start == goal ==> p@.len() == 1) && (escape
            && spec_escaped(start, goal) ==> p@.len() == 1),
        r matches Some(p) ==> (escape ==> forall|i: int|
            0 <= i < p@.len() - 1 ==> !spec_escaped(#[trigger] p@[i], goal)),
        view_opt(r) == astar_result(
            grid.grid(),
            start.x as int,
            start.y as int,
            goal.x as int,
            goal.y as int,
            escape,
        ),
{
    let r = if escape {
        astar(&start, |p: &Pos| p.successors(grid), |p: &Pos| escape_weight(p, &goal), |p: &Pos| escaped(p, &goal))
    } else {
        astar(&start, |p: &Pos| p.successors(grid), |p: &Pos| p.weight(&goal), |p: &Pos| same_pos(p, &goal))
    };
    match r {
        Some((path, _)) => Some(path),
        None => None,
    }
}

/// The first `n` cells of a path.
fn take_prefix(v: &Vec<Pos>, n: usize) -> (r: Vec<Pos>)
    requires
        n <= v@.len(),
    ensures
        r@ == v@.take(n as int),
{
    let mut r: Vec<Pos> = Vec::new();
    for k in 0..n
        invariant
            n <= v@.len(),
            r@ == v@.take(k as int),
    {
        r.push(v[k]);
        proof {
            assert(r@ =~= v@.take(k as int + 1));
        }
    }
    r
}

/// A non-empty prefix of a legal path is itself a legal path.
pub proof fn lemma_path_ok_prefix(g: Seq<Seq<bool>>, p: Seq<Pos>, n: int)
    requires
        path_ok(g, p),
        1 <= n <= p.len(),
    ensures
        path_ok(g, p.take(n)),
{
    let t = p.take(n);
    assert forall|i: int| 0 <= i < t.len() - 1 implies #[trigger] path_step_at(g, t, i) by {
        assert(path_step_at(g, p, i));
        assert(t[i] == p[i] && t[i + 1] == p[i + 1]);
    }
}

/// The one-cell sequence on `start` is a legal path.
pub proof fn lemma_singleton_path(g: Seq<Seq<bool>>, start: Pos)
    ensures
        path_ok(g, seq![start]),
        seq![start].first() == start,
        seq![start].last() == start,
{
}

/// The pathfinder's result as a mathematical function of its inputs: the
/// named search result, filtered and trimmed by intent.  Stating that the
/// executable pathfinder equals this function makes determinism part of
/// its contract: two calls on equal grids, cells and intent return the
/// identical path.
pub open spec fn spec_pathfinder(
    g: Seq<Seq<bool>>,
    ready: bool,
    start: Pos,
    end: Pos,
    npc_state: NpcState,
) -> Option<Seq<Pos>> {
    if !ready {
        None
    } else {
        match npc_state {
            NpcState::Chase => match astar_result(
                g,
                start.x as int,
                start.y as int,
                end.x as int,
                end.y as int,
                false,
            ) {
                Some(q) => if q.len() > 5 {
                    Some(q.take(q.len() - 4))
                } else {
                    None
                },
                None => None,
            },
            NpcState::Look | NpcState::Chill => match astar_result(
                g,
                start.x as int,
                start.y as int,
                end.x as int,
                end.y as int,
                false,
            ) {
                Some(q) => if q.len() > 1 {
                    Some(q)
                } else {
                    None
                },
                None => None,
            },
            NpcState::Escape => match astar_result(
                g,
                start.x as int,
                start.y as int,
                end.x as int,
                end.y as int,
                true,
            ) {
                Some(q) => if q.len() > 1 {
                    Some(q)
                } else {
                    None
                },
                None => None,
            },
            NpcState::Attack | NpcState::Dead => None,
        }
    }
}

/// Find a path from `start_ipos` toward (or, for `Escape`, away from)
/// `end_ipos`, parameterised by the behavioural intent:
///
/// - `Chase`: shortest path to the goal cell under the 10/14 model, with the
///   last four cells trimmed off so the chaser stops short of its target; a
///   search result of five or fewer cells is reported as "no path", the
///   signal to switch to direct engagement.
/// - `Look` / `Chill`: shortest path to the goal cell, untrimmed.
/// - `Escape`: any path to a cell outside the safe radius around
///   `end_ipos`.
/// - `Attack` / `Dead`: no pathing.
///
/// Returns `None` when the grid or transform is not ready, when no suitable
/// path exists, or when the agent is already at (or, escaping, already safely
/// away from) its goal.  A returned path always has at least two cells and
/// starts at `start_ipos`.
pub fn pathfinder(start_ipos: Pos, end_ipos: Pos, trespassable: &TrespassableCells, transformer: &TransformToGrid, npc_state: NpcState) -> (r: Option<Vec<Pos>>)
    requires
        trespassable.wf(),
        start_ipos.in_coord_range(),
        end_ipos.in_coord_range(),
    ensures
        !(trespassable.ready && transformer.ready) ==> r is None,
        npc_state == NpcState::Attack || npc_state == NpcState::Dead ==> r is None,
        r matches Some(p) ==> p@.len() >= 2 && p@.first() == start_ipos && path_ok(
            trespassable.grid(),
            p@,
        ),
        r matches Some(p) ==> (forall|i: int| 0 <= i < p@.len() ==> #[trigger] p@[i].in_coord_range()),
        r matches Some(p) ==> (start_ipos.in_cell_range() ==> (forall|i: int|
            0 <= i < p@.len() ==> #[trigger] p@[i].in_cell_range())),
        npc_state == NpcState::Chase ==> (r matches Some(p) ==> exists|q: Seq<Pos>|
            #[trigger] chase_path(trespassable.grid(), q, start_ipos, end_ipos) && path_minimal(
                trespassable.grid(),
                q,
                start_ipos,
                end_ipos,
            ) && q.len() > 5 && p@ == q.take(q.len() - 4)),
        npc_state == NpcState::Chase && trespassable.ready && transformer.ready && r is None
            ==> !(exists|q: Seq<Pos>| #[trigger] chase_path(trespassable.grid(), q, start_ipos, end_ipos))
            || (exists|q: Seq<Pos>| #[trigger] chase_path(trespassable.grid(), q, start_ipos, end_ipos)
                && path_minimal(trespassable.grid(), q, start_ipos, end_ipos) && q.len() <= 5),
        npc_state == NpcState::Look || npc_state == NpcState::Chill ==> (r matches Some(p)
            ==> chase_path(trespassable.grid(), p@, start_ipos, end_ipos) && path_minimal(
            trespassable.grid(),
            p@,
            start_ipos,
            end_ipos,
        )),
        (npc_state == NpcState::Look || npc_state == NpcState::Chill) && trespassable.ready
            && transformer.ready ==> ((r is None) <==> !(exists|q: Seq<Pos>|
            #[trigger] chase_path(trespassable.grid(), q, start_ipos, end_ipos)) || start_ipos
            == end_ipos),
        npc_state == NpcState::Escape ==> (r matches Some(p) ==> escape_path(
            trespassable.grid(),
            p@,
            start_ipos,
            end_ipos,
        )),
        npc_state == NpcState::Escape && trespassable.ready && transformer.ready ==> ((r is None)
            <==> !(exists|q: Seq<Pos>|
            #[trigger] escape_path(trespassable.grid(), q, start_ipos, end_ipos)) || spec_escaped(
            start_ipos,
            end_ipos,
        )),
        npc_state == NpcState::Escape ==> (r matches Some(p) ==> forall|i: int|
            0 <= i < p@.len() - 1 ==> !spec_escaped(#[trigger] p@[i], end_ipos)),
        view_opt(r) == spec_pathfinder(
            trespassable.grid(),
            trespassable.ready && transformer.ready,
            start_ipos,
            end_ipos,
            npc_state,
        ),
{
    let g_ready = trespassable.ready && transformer.ready;
    if !g_ready {
        return None;
    }
    let ghost g = trespassable.grid();
    match npc_state {
        NpcState::Chase => {
            match astar_search(trespassable, start_ipos, end_ipos, false) {
                Some(path) => {
                    if path.len() > 5 {
                        let trimmed = take_prefix(&path, path.len() - 4);
                        proof {
                            assert(chase_path(g, path@, start_ipos, end_ipos));
                            lemma_path_ok_prefix(g, path@, path@.len() - 4);
                            assert(trimmed@[0] == path@[0]);
                            lemma_path_cells_in_range(g, trimmed@);
                            if start_ipos.in_cell_range() {
                                lemma_path_cells_in_cell_range(g, trimmed@);
                            }
                        }
                        Some(trimmed)
                    } else {
                        proof {
                            assert(chase_path(g, path@, start_ipos, end_ipos));
                        }
                        None
                    }
                },
                None => None,
            }
        },
        NpcState::Escape => {
            match astar_search(trespassable, start_ipos, end_ipos, true) {
                Some(path) => {
                    if path.len() > 1 {
                        proof {
                            assert(escape_path(g, path@, start_ipos, end_ipos));
                            lemma_path_cells_in_range(g, path@);
                            if start_ipos.in_cell_range() {
                                lemma_path_cells_in_cell_range(g, path@);
                            }
                            if spec_escaped(start_ipos, end_ipos) {
                                assert(path@.len() == 1);
                            }
                        }
                        Some(path)
                    } else {
                        proof {
                            assert(path@.last() == path@.first());
                            assert(spec_escaped(start_ipos, end_ipos));
                        }
                        None
                    }
                },
                None => {
                    proof {
                        if spec_escaped(start_ipos, end_ipos) {
                            lemma_singleton_path(g, start_ipos);
                            assert(escape_path(g, seq![start_ipos], start_ipos, end_ipos));
                            assert(false);
                        }
                    }
                    None
                },
            }
        },
        NpcState::Look | NpcState::Chill => {
            match astar_search(trespassable, start_ipos, end_ipos, false) {
                Some(path) => {
                    if path.len() > 1 {
                        proof {
                            assert(chase_path(g, path@, start_ipos, end_ipos));
                            lemma_path_cells_in_range(g, path@);
                            if start_ipos.in_cell_range() {
                                lemma_path_cells_in_cell_range(g, path@);
                            }
                            if start_ipos == end_ipos {
                                assert(path@.len() == 1);
                            }
                        }
                        Some(path)
                    } else {
                        proof {
                            assert(path@.last() == path@.first());
                        }
                        None
                    }
                },
                None => {
                    proof {
                        if start_ipos == end_ipos {
                            lemma_singleton_path(g, start_ipos);
                            assert(chase_path(g, seq![start_ipos], start_ipos, end_ipos));
                            assert(false);
                        }
                    }
                    None
                },
            }
        },
        NpcState::Attack | NpcState::Dead => None,
    }
}

} // verus!
