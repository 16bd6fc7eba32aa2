use npc_core::geom::Pos;
use npc_core::geom::WorldVec;
use npc_core::grid::TrespassableCells;
use npc_core::transform::TransformToGrid;

fn open_grid(w: usize, h: usize) -> TrespassableCells {
    TrespassableCells::from_obstacles(w, h, &Vec::new())
}

#[test]
fn out_of_bounds_is_not_traversable() {
    let grid = open_grid(4, 4);
    assert!(!grid.is_trespassable(&Pos::new(-1, 0)));
    assert!(!grid.is_trespassable(&Pos::new(0, -1)));
    assert!(!grid.is_trespassable(&Pos::new(4, 0)));
    assert!(!grid.is_trespassable(&Pos::new(0, 4)));
    assert!(!grid.is_trespassable(&Pos::new(-1000, -1000)));
    assert!(!grid.is_trespassable(&Pos::new(1000, 2)));
    for x in 0..4 {
        for y in 0..4 {
            assert!(grid.is_trespassable(&Pos::new(x, y)));
        }
    }
}

#[test]
fn obstacles_punch_false_holes() {
    let obstacles = vec![Pos::new(1, 2), Pos::new(3, 0)];
    let grid = TrespassableCells::from_obstacles(4, 4, &obstacles);
    assert!(grid.ready);
    assert!(!grid.is_trespassable(&Pos::new(1, 2)));
    assert!(!grid.is_trespassable(&Pos::new(3, 0)));
    assert!(grid.is_trespassable(&Pos::new(1, 1)));
    assert!(grid.is_trespassable(&Pos::new(2, 2)));
    assert!(grid.is_trespassable(&Pos::new(0, 0)));
}

#[test]
fn empty_oracle_is_not_ready() {
    let grid = TrespassableCells::empty();
    assert!(!grid.ready);
    assert!(!grid.is_trespassable(&Pos::new(0, 0)));
}

#[test]
fn occupancy_is_refreshed_from_scratch() {
    let mut grid = open_grid(4, 4);
    let first = vec![Pos::new(0, 0), Pos::new(2, 3)];
    grid.update_units(&first);
    assert!(grid.is_occupied(&Pos::new(0, 0)));
    assert!(grid.is_occupied(&Pos::new(2, 3)));
    assert!(!grid.is_occupied(&Pos::new(1, 1)));
    let second = vec![Pos::new(1, 1)];
    grid.update_units(&second);
    assert!(grid.is_occupied(&Pos::new(1, 1)));
    assert!(!grid.is_occupied(&Pos::new(0, 0)));
}

#[test]
fn world_grid_round_trip() {
    let tf = TransformToGrid::new(WorldVec::new(-32_000, 16_000), 96_000, 16_000, true);
    for x in -3..8 {
        for y in -3..8 {
            let p = Pos::new(x, y);
            let w = tf.to_world(p);
            let back = tf.from_world(w);
            assert_eq!(back, p);
        }
    }
}

#[test]
fn from_world_floors_toward_grid_origin() {
    let tf = TransformToGrid::new(WorldVec::new(0, 0), 96_000, 16_000, true);
    // The level is 96 pixels tall; world y just under the top edge is row 0.
    let cell = tf.from_world(WorldVec::new(1_000, 95_000));
    assert_eq!(cell, Pos::new(0, 0));
    let cell = tf.from_world(WorldVec::new(17_000, 95_000 - 16_000));
    assert_eq!(cell, Pos::new(1, 1));
}
