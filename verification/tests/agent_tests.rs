use npc_core::agent::Agent;
use npc_core::agent::CountdownTimer;
use npc_core::agent::NpcKind;
use npc_core::agent::NpcPath;
use npc_core::agent::NpcState;
use npc_core::agent::PlayerSnapshot;
use npc_core::agent::TickInput;
use npc_core::agent::manage_civilians;
use npc_core::agent::manage_hunters;
use npc_core::agent::npc_tick;
use npc_core::agent::update_unit_grid;
use npc_core::geom::Pos;
use npc_core::geom::WorldVec;
use npc_core::grid::TrespassableCells;
use npc_core::transform::TransformToGrid;

const PLAYER_ID: u64 = 7;

fn transform() -> TransformToGrid {
    TransformToGrid::new(WorldVec::new(0, 0), 96_000, 16_000, true)
}

fn open_grid(w: usize, h: usize) -> TrespassableCells {
    TrespassableCells::from_obstacles(w, h, &Vec::new())
}

fn player_at(tf: &TransformToGrid, cell: Pos, is_night: bool) -> PlayerSnapshot {
    PlayerSnapshot {
        pos: tf.to_world(cell),
        vel: WorldVec::new(0, 0),
        entity: PLAYER_ID,
        is_night,
    }
}

fn seen() -> TickInput {
    TickInput { raycast_hit: Some(PLAYER_ID), dt_ms: 100 }
}

fn unseen() -> TickInput {
    TickInput { raycast_hit: None, dt_ms: 100 }
}

fn agent_at(tf: &TransformToGrid, kind: NpcKind, state: NpcState, cell: Pos) -> Agent {
    let mut a = Agent::spawn(kind, tf.to_world(cell));
    a.state = state;
    a
}

#[test]
fn chill_sighting_by_day_turns_to_chase_never_escape() {
    let grid = open_grid(6, 6);
    let tf = transform();
    for kind in [NpcKind::Civilian, NpcKind::Hunter] {
        let mut a = agent_at(&tf, kind, NpcState::Chill, Pos::new(0, 0));
        let player = player_at(&tf, Pos::new(3, 3), false);
        npc_tick(&mut a, &player, &seen(), &grid, &tf);
        assert_eq!(a.state, NpcState::Chase);
    }
}

#[test]
fn chill_sighting_by_night_turns_to_escape_never_chase() {
    let grid = open_grid(6, 6);
    let tf = transform();
    for kind in [NpcKind::Civilian, NpcKind::Hunter] {
        let mut a = agent_at(&tf, kind, NpcState::Chill, Pos::new(0, 0));
        let player = player_at(&tf, Pos::new(3, 3), true);
        npc_tick(&mut a, &player, &seen(), &grid, &tf);
        assert_eq!(a.state, NpcState::Escape);
    }
}

#[test]
fn look_sighting_follows_the_same_polarity() {
    let grid = open_grid(6, 6);
    let tf = transform();
    for kind in [NpcKind::Civilian, NpcKind::Hunter] {
        let mut a = agent_at(&tf, kind, NpcState::Look, Pos::new(0, 0));
        let player = player_at(&tf, Pos::new(3, 3), false);
        npc_tick(&mut a, &player, &seen(), &grid, &tf);
        assert_eq!(a.state, NpcState::Chase);

        let mut a = agent_at(&tf, kind, NpcState::Look, Pos::new(0, 0));
        let player = player_at(&tf, Pos::new(3, 3), true);
        npc_tick(&mut a, &player, &seen(), &grid, &tf);
        assert_eq!(a.state, NpcState::Escape);
    }
}

#[test]
fn chase_flips_to_escape_when_night_falls() {
    let grid = open_grid(6, 6);
    let tf = transform();
    let mut a = agent_at(&tf, NpcKind::Hunter, NpcState::Chase, Pos::new(0, 0));
    let player = player_at(&tf, Pos::new(5, 5), true);
    npc_tick(&mut a, &player, &seen(), &grid, &tf);
    assert_eq!(a.state, NpcState::Escape);
}

#[test]
fn escape_flips_back_to_chase_on_a_daytime_sighting() {
    let grid = open_grid(6, 6);
    let tf = transform();
    let mut a = agent_at(&tf, NpcKind::Civilian, NpcState::Escape, Pos::new(0, 0));
    let player = player_at(&tf, Pos::new(5, 5), false);
    npc_tick(&mut a, &player, &seen(), &grid, &tf);
    assert_eq!(a.state, NpcState::Chase);
}

#[test]
fn escape_reverts_to_chill_by_day_without_sight() {
    let grid = open_grid(6, 6);
    let tf = transform();
    let mut a = agent_at(&tf, NpcKind::Civilian, NpcState::Escape, Pos::new(0, 0));
    let player = player_at(&tf, Pos::new(5, 5), false);
    npc_tick(&mut a, &player, &unseen(), &grid, &tf);
    assert_eq!(a.state, NpcState::Chill);
}

#[test]
fn escape_repaths_away_from_the_player_every_tick() {
    let grid = open_grid(20, 20);
    let tf = TransformToGrid::new(WorldVec::new(0, 0), 320_000, 16_000, true);
    let mut a = agent_at(&tf, NpcKind::Civilian, NpcState::Escape, Pos::new(10, 10));
    let player_cell = Pos::new(12, 10);
    let player = player_at(&tf, player_cell, true);
    let out = npc_tick(&mut a, &player, &unseen(), &grid, &tf);
    assert_eq!(a.state, NpcState::Escape);
    assert!(out.path_requested);
    assert!(out.path_found);
    let path = a.path.path.as_ref().expect("flight path");
    let last = *path.last().unwrap();
    let d2 = (last.x - player_cell.x) as i64 * (last.x - player_cell.x) as i64
        + (last.y - player_cell.y) as i64 * (last.y - player_cell.y) as i64;
    assert!(d2 > 25);
}

#[test]
fn chase_without_sight_records_the_last_known_cell() {
    let grid = open_grid(6, 6);
    let tf = transform();
    let mut a = agent_at(&tf, NpcKind::Hunter, NpcState::Chase, Pos::new(0, 0));
    let player_cell = Pos::new(4, 2);
    let player = player_at(&tf, player_cell, false);
    npc_tick(&mut a, &player, &unseen(), &grid, &tf);
    assert_eq!(a.state, NpcState::Look);
    assert_eq!(a.last_player_pos.pos, player_cell);
}

#[test]
fn dead_agents_stay_dead() {
    let grid = open_grid(6, 6);
    let tf = transform();
    let mut a = agent_at(&tf, NpcKind::Hunter, NpcState::Dead, Pos::new(0, 0));
    let player = player_at(&tf, Pos::new(1, 1), false);
    let out = npc_tick(&mut a, &player, &seen(), &grid, &tf);
    assert_eq!(a.state, NpcState::Dead);
    assert_eq!(out.velocity, WorldVec::new(0, 0));
    assert_eq!(out.damage_to_player, 0);
}

#[test]
fn path_consumption_pops_the_head_at_the_second_cell() {
    let a = Pos::new(0, 0);
    let b = Pos::new(1, 0);
    let c = Pos::new(2, 0);
    let mut path = NpcPath { path: Some(vec![a, b, c]) };
    path.consume(b);
    assert_eq!(path.path, Some(vec![b, c]));
}

#[test]
fn path_consumption_discards_a_finished_path() {
    let a = Pos::new(0, 0);
    let b = Pos::new(1, 0);
    let mut path = NpcPath { path: Some(vec![a, b]) };
    path.consume(b);
    assert_eq!(path.path, None);
}

#[test]
fn path_consumption_waits_until_the_second_cell_is_reached() {
    let a = Pos::new(0, 0);
    let b = Pos::new(1, 0);
    let c = Pos::new(2, 0);
    let mut path = NpcPath { path: Some(vec![a, b, c]) };
    path.consume(a);
    assert_eq!(path.path, Some(vec![a, b, c]));
}

#[test]
fn civilian_melee_hits_in_range_then_rechases() {
    let grid = open_grid(6, 6);
    let tf = transform();
    let cell = Pos::new(2, 2);
    let mut a = agent_at(&tf, NpcKind::Civilian, NpcState::Attack, cell);
    let player = player_at(&tf, cell, false);
    let input = TickInput { raycast_hit: Some(PLAYER_ID), dt_ms: 500 };
    let out = npc_tick(&mut a, &player, &input, &grid, &tf);
    assert!(out.timer_fired);
    assert_eq!(out.damage_to_player, 10);
    assert_eq!(a.state, NpcState::Chase);
}

#[test]
fn civilian_melee_misses_out_of_range() {
    let grid = open_grid(6, 6);
    let tf = transform();
    let mut a = agent_at(&tf, NpcKind::Civilian, NpcState::Attack, Pos::new(0, 0));
    let player = player_at(&tf, Pos::new(5, 5), false);
    let input = TickInput { raycast_hit: Some(PLAYER_ID), dt_ms: 500 };
    let out = npc_tick(&mut a, &player, &input, &grid, &tf);
    assert!(out.timer_fired);
    assert_eq!(out.damage_to_player, 0);
    assert_eq!(a.state, NpcState::Chase);
}

#[test]
fn hunter_throws_at_a_stationary_player_exactly() {
    let grid = open_grid(6, 6);
    let tf = transform();
    let mut a = agent_at(&tf, NpcKind::Hunter, NpcState::Attack, Pos::new(0, 0));
    let player = player_at(&tf, Pos::new(5, 5), false);
    let input = TickInput { raycast_hit: Some(PLAYER_ID), dt_ms: 500 };
    let out = npc_tick(&mut a, &player, &input, &grid, &tf);
    assert!(out.timer_fired);
    assert_eq!(out.throw_at, Some(player.pos));
}

#[test]
fn hunter_attack_backs_away_when_crowded() {
    let grid = open_grid(6, 6);
    let tf = transform();
    // Player two cells away: under the lower distance band.
    let mut a = agent_at(&tf, NpcKind::Hunter, NpcState::Attack, Pos::new(0, 0));
    let player = player_at(&tf, Pos::new(2, 0), false);
    npc_tick(&mut a, &player, &seen(), &grid, &tf);
    assert_eq!(a.state, NpcState::Escape);
}

#[test]
fn timers_fire_and_restart_on_their_period() {
    let mut t = CountdownTimer::new(500);
    assert!(!t.tick(200));
    assert_eq!(t.remaining_ms, 300);
    assert!(t.tick(300));
    assert_eq!(t.remaining_ms, 500);
    assert!(t.tick(900));
    assert_eq!(t.remaining_ms, 500);
}

#[test]
fn update_unit_grid_projects_agent_cells() {
    let mut grid = open_grid(6, 6);
    let tf = transform();
    let agents = vec![
        agent_at(&tf, NpcKind::Civilian, NpcState::Chill, Pos::new(1, 2)),
        agent_at(&tf, NpcKind::Hunter, NpcState::Chill, Pos::new(4, 4)),
    ];
    update_unit_grid(&mut grid, &tf, &agents);
    assert!(grid.is_occupied(&Pos::new(1, 2)));
    assert!(grid.is_occupied(&Pos::new(4, 4)));
    assert!(!grid.is_occupied(&Pos::new(0, 0)));
}

#[test]
fn manage_functions_tick_whole_tables() {
    let grid = open_grid(6, 6);
    let tf = transform();
    let player = player_at(&tf, Pos::new(3, 3), false);
    let mut civs = vec![
        agent_at(&tf, NpcKind::Civilian, NpcState::Chill, Pos::new(0, 0)),
        agent_at(&tf, NpcKind::Civilian, NpcState::Chill, Pos::new(5, 5)),
    ];
    let inputs = vec![seen(), unseen()];
    let outs = manage_civilians(&mut civs, &inputs, &player, &grid, &tf);
    assert_eq!(outs.len(), 2);
    assert_eq!(civs[0].state, NpcState::Chase);
    assert_eq!(civs[1].state, NpcState::Chill);

    let mut hunters = vec![agent_at(&tf, NpcKind::Hunter, NpcState::Chill, Pos::new(0, 0))];
    let inputs = vec![seen()];
    let outs = manage_hunters(&mut hunters, &inputs, &player, &grid, &tf);
    assert_eq!(outs.len(), 1);
    assert_eq!(hunters[0].state, NpcState::Chase);
}

#[test]
fn chase_reaches_attack_without_oscillating_through_look() {
    // End-to-end: 6x6 all-traversable grid, agent chasing from (0,0), the
    // player standing at (5,5), always visible, by day.  The test plays the
    // external mover: each tick the agent is advanced to its next path cell.
    let grid = open_grid(6, 6);
    let tf = transform();
    let mut a = agent_at(&tf, NpcKind::Civilian, NpcState::Chase, Pos::new(0, 0));
    let player = player_at(&tf, Pos::new(5, 5), false);
    let mut reached_attack = false;
    for _ in 0..20 {
        let out = npc_tick(&mut a, &player, &seen(), &grid, &tf);
        assert_ne!(a.state, NpcState::Look, "chaser may not lose a visible player");
        assert_ne!(a.state, NpcState::Escape);
        if a.state == NpcState::Attack {
            reached_attack = true;
            break;
        }
        assert_eq!(a.state, NpcState::Chase);
        if out.path_found {
            if let Some(p) = &a.path.path {
                a.pos = tf.to_world(p[1]);
            }
        }
    }
    assert!(reached_attack, "the chaser must close in within a bounded number of ticks");
}

#[test]
fn chill_wander_asks_for_a_path() {
    let grid = TrespassableCells::from_obstacles(16, 16, &Vec::new());
    let tf = TransformToGrid::new(WorldVec::new(0, 0), 256_000, 16_000, true);
    let mut a = Agent::spawn(NpcKind::Civilian, tf.to_world(Pos::new(8, 8)));
    let player = PlayerSnapshot {
        pos: tf.to_world(Pos::new(15, 15)),
        vel: WorldVec::new(0, 0),
        entity: PLAYER_ID,
        is_night: false,
    };
    // Out of sight, no path, and a delta that spends the whole wander timer:
    // the agent must roll a nearby target and ask the pathfinder for it.
    let input = TickInput { raycast_hit: None, dt_ms: 1_000 };
    let out = npc_tick(&mut a, &player, &input, &grid, &tf);
    assert_eq!(a.state, NpcState::Chill);
    assert!(out.timer_fired);
    assert!(out.path_requested);
    if let Some(p) = &a.path.path {
        assert!(p.len() >= 2);
        assert_eq!(p[0], Pos::new(8, 8));
        let last = p[p.len() - 1];
        assert!((last.x - 8).abs() <= 4 && (last.y - 8).abs() <= 4);
    }
}
