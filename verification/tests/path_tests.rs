use npc_core::agent::NpcState;
use npc_core::geom::Pos;
use npc_core::geom::WorldVec;
use npc_core::grid::TrespassableCells;
use npc_core::pathfind::CARDINAL_COST;
use npc_core::pathfind::DIAGONAL_COST;
use npc_core::transform::TransformToGrid;

fn transform() -> TransformToGrid {
    TransformToGrid::new(WorldVec::new(0, 0), 96_000, 16_000, true)
}

fn open_grid(w: usize, h: usize) -> TrespassableCells {
    TrespassableCells::from_obstacles(w, h, &Vec::new())
}

fn path_cost(path: &[Pos]) -> i64 {
    let mut total: i64 = 0;
    for w in path.windows(2) {
        let dx = (w[1].x - w[0].x).abs();
        let dy = (w[1].y - w[0].y).abs();
        assert!(dx <= 1 && dy <= 1 && dx + dy >= 1, "illegal step in path");
        total += if dx + dy == 2 { DIAGONAL_COST as i64 } else { CARDINAL_COST as i64 };
    }
    total
}

/// Brute-force reference: cheapest cost from `start` to `goal` under the
/// 10/14 model with the corner-cutting rule, by relaxation to a fixed point.
fn brute_force_cost(grid: &TrespassableCells, w: i32, h: i32, start: Pos, goal: Pos) -> Option<i64> {
    let idx = |p: Pos| (p.y * w + p.x) as usize;
    let mut dist: Vec<Option<i64>> = vec![None; (w * h) as usize];
    if start.x < 0 || start.x >= w || start.y < 0 || start.y >= h {
        return None;
    }
    dist[idx(start)] = Some(0);
    let mut changed = true;
    while changed {
        changed = false;
        for x in 0..w {
            for y in 0..h {
                let from = Pos::new(x, y);
                let Some(d) = dist[idx(from)] else { continue };
                for (mov, cost) in from.successors(grid) {
                    if mov.x < 0 || mov.x >= w || mov.y < 0 || mov.y >= h {
                        continue;
                    }
                    let nd = d + cost as i64;
                    if dist[idx(mov)].map_or(true, |old| nd < old) {
                        dist[idx(mov)] = Some(nd);
                        changed = true;
                    }
                }
            }
        }
    }
    dist[idx(goal)]
}

#[test]
fn successors_on_open_ground() {
    let grid = open_grid(5, 5);
    let succ = Pos::new(2, 2).successors(&grid);
    assert_eq!(succ.len(), 8);
    let cardinals = succ.iter().filter(|(_, c)| *c == CARDINAL_COST).count();
    let diagonals = succ.iter().filter(|(_, c)| *c == DIAGONAL_COST).count();
    assert_eq!(cardinals, 4);
    assert_eq!(diagonals, 4);
    assert!(succ.contains(&(Pos::new(3, 2), CARDINAL_COST)));
    assert!(succ.contains(&(Pos::new(3, 3), DIAGONAL_COST)));
}

#[test]
fn corner_cutting_needs_both_flanks_and_the_diagonal() {
    // Wall cell east of the agent: the north-east diagonal may not be cut
    // even though the diagonal cell itself is open.
    let grid = TrespassableCells::from_obstacles(3, 3, &vec![Pos::new(1, 0)]);
    let succ = Pos::new(0, 0).successors(&grid);
    assert!(!succ.iter().any(|(p, _)| *p == Pos::new(1, 0)));
    assert!(!succ.iter().any(|(p, _)| *p == Pos::new(1, 1)));
    assert!(succ.contains(&(Pos::new(0, 1), CARDINAL_COST)));
    // With the flank open again the diagonal is offered.
    let open = open_grid(3, 3);
    let succ = Pos::new(0, 0).successors(&open);
    assert!(succ.contains(&(Pos::new(1, 1), DIAGONAL_COST)));
    // A blocked diagonal cell is never offered either.
    let diag_blocked = TrespassableCells::from_obstacles(3, 3, &vec![Pos::new(1, 1)]);
    let succ = Pos::new(0, 0).successors(&diag_blocked);
    assert!(!succ.iter().any(|(p, _)| *p == Pos::new(1, 1)));
}

#[test]
fn no_diagonal_path_past_an_l_shaped_corner() {
    // A wall along x = 1 with a gap only at y = 3: the only way from the
    // left column to the right one runs through the gap, and the path may
    // not slip diagonally past the corner cells.
    let obstacles = vec![Pos::new(1, 0), Pos::new(1, 1), Pos::new(1, 2)];
    let grid = TrespassableCells::from_obstacles(4, 4, &obstacles);
    let tf = transform();
    let path = npc_core::pathfind::pathfinder(
        Pos::new(0, 0),
        Pos::new(2, 0),
        &grid,
        &tf,
        NpcState::Look,
    )
    .expect("a path around the wall exists");
    assert_eq!(path.first().copied(), Some(Pos::new(0, 0)));
    assert_eq!(path.last().copied(), Some(Pos::new(2, 0)));
    let expected = brute_force_cost(&grid, 4, 4, Pos::new(0, 0), Pos::new(2, 0)).unwrap();
    assert_eq!(path_cost(&path), expected);
    // Every step must still satisfy the corner rule around the wall gap.
    for w in path.windows(2) {
        let (a, b) = (w[0], w[1]);
        if (b.x - a.x).abs() == 1 && (b.y - a.y).abs() == 1 {
            assert!(grid.is_trespassable(&Pos::new(b.x, a.y)));
            assert!(grid.is_trespassable(&Pos::new(a.x, b.y)));
        }
    }
}

#[test]
fn chase_search_is_minimal_against_brute_force() {
    let obstacles = vec![
        Pos::new(2, 1),
        Pos::new(2, 2),
        Pos::new(2, 3),
        Pos::new(4, 2),
        Pos::new(4, 3),
        Pos::new(4, 4),
    ];
    let grid = TrespassableCells::from_obstacles(6, 6, &obstacles);
    let tf = transform();
    for (start, goal) in [
        (Pos::new(0, 0), Pos::new(5, 5)),
        (Pos::new(0, 5), Pos::new(5, 0)),
        (Pos::new(1, 2), Pos::new(5, 3)),
    ] {
        let path = npc_core::pathfind::pathfinder(start, goal, &grid, &tf, NpcState::Look)
            .expect("connected cells must be joined");
        assert_eq!(path.first().copied(), Some(start));
        assert_eq!(path.last().copied(), Some(goal));
        let expected = brute_force_cost(&grid, 6, 6, start, goal).unwrap();
        assert_eq!(path_cost(&path), expected);
    }
}

#[test]
fn chase_trims_the_tail_and_reports_close_range_as_no_path() {
    let grid = open_grid(12, 12);
    let tf = transform();
    // A straight corridor of 10 cells: the chase variant drops the last 4.
    let path = npc_core::pathfind::pathfinder(
        Pos::new(0, 0),
        Pos::new(9, 0),
        &grid,
        &tf,
        NpcState::Chase,
    )
    .expect("long chase path");
    assert_eq!(path.len(), 6);
    assert_eq!(path.first().copied(), Some(Pos::new(0, 0)));
    // Close enough that the trimmed path would vanish: reported as None.
    let close = npc_core::pathfind::pathfinder(
        Pos::new(0, 0),
        Pos::new(2, 0),
        &grid,
        &tf,
        NpcState::Chase,
    );
    assert!(close.is_none());
}

#[test]
fn escape_leads_outside_the_safe_radius() {
    let grid = open_grid(20, 20);
    let tf = transform();
    let start = Pos::new(10, 10);
    let goal = Pos::new(10, 10);
    let path = npc_core::pathfind::pathfinder(start, goal, &grid, &tf, NpcState::Escape)
        .expect("an escape route exists on an open grid");
    assert!(path.len() >= 2);
    assert_eq!(path.first().copied(), Some(start));
    let last = *path.last().unwrap();
    let d2 = (last.x - goal.x) as i64 * (last.x - goal.x) as i64
        + (last.y - goal.y) as i64 * (last.y - goal.y) as i64;
    assert!(d2 > 25);
    // Already outside the radius: nothing to do.
    let already = npc_core::pathfind::pathfinder(
        Pos::new(0, 0),
        Pos::new(19, 19),
        &grid,
        &tf,
        NpcState::Escape,
    );
    assert!(already.is_none());
}

#[test]
fn pathfinder_requires_ready_grid_and_transform() {
    let mut grid = open_grid(6, 6);
    grid.ready = false;
    let tf = transform();
    assert!(npc_core::pathfind::pathfinder(
        Pos::new(0, 0),
        Pos::new(5, 5),
        &grid,
        &tf,
        NpcState::Chase
    )
    .is_none());
    grid.ready = true;
    let tf_not_ready = TransformToGrid::new(WorldVec::new(0, 0), 96_000, 16_000, false);
    assert!(npc_core::pathfind::pathfinder(
        Pos::new(0, 0),
        Pos::new(5, 5),
        &grid,
        &tf_not_ready,
        NpcState::Chase
    )
    .is_none());
}

#[test]
fn pathfinder_is_deterministic() {
    let obstacles = vec![Pos::new(2, 2), Pos::new(3, 2), Pos::new(2, 3)];
    let grid = TrespassableCells::from_obstacles(8, 8, &obstacles);
    let tf = transform();
    let a = npc_core::pathfind::pathfinder(Pos::new(0, 0), Pos::new(7, 7), &grid, &tf, NpcState::Chase);
    let b = npc_core::pathfind::pathfinder(Pos::new(0, 0), Pos::new(7, 7), &grid, &tf, NpcState::Chase);
    assert_eq!(a, b);
}

#[test]
fn walled_off_goal_has_no_path() {
    let obstacles = vec![
        Pos::new(4, 4),
        Pos::new(5, 4),
        Pos::new(6, 4),
        Pos::new(4, 5),
        Pos::new(6, 5),
        Pos::new(4, 6),
        Pos::new(5, 6),
        Pos::new(6, 6),
    ];
    let grid = TrespassableCells::from_obstacles(8, 8, &obstacles);
    let tf = transform();
    let r = npc_core::pathfind::pathfinder(Pos::new(0, 0), Pos::new(5, 5), &grid, &tf, NpcState::Look);
    assert!(r.is_none());
}

#[test]
fn escape_fails_when_no_cell_lies_beyond_the_radius() {
    // A 4x4 grid is entirely inside the safe radius of its own centre, so
    // there is nowhere to flee to.
    let grid = open_grid(4, 4);
    let tf = transform();
    let r = npc_core::pathfind::pathfinder(Pos::new(1, 1), Pos::new(1, 1), &grid, &tf, NpcState::Escape);
    assert!(r.is_none());
}

#[test]
fn attack_and_dead_intents_do_not_path() {
    let grid = open_grid(6, 6);
    let tf = transform();
    for state in [NpcState::Attack, NpcState::Dead] {
        let r = npc_core::pathfind::pathfinder(Pos::new(0, 0), Pos::new(5, 5), &grid, &tf, state);
        assert!(r.is_none());
    }
}
