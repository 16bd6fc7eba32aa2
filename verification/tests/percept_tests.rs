use npc_core::geom::WorldVec;
use npc_core::percept::can_see;
use npc_core::percept::SPOT_DIST;

const PLAYER_ID: u64 = 7;
const WALL_ID: u64 = 9;

#[test]
fn sight_needs_the_player_as_first_hit() {
    let observer = WorldVec::new(0, 0);
    let target = WorldVec::new(50_000, 0);
    assert!(can_see(Some(PLAYER_ID), PLAYER_ID, observer, target));
    // An intervening obstacle hides the player.
    assert!(!can_see(Some(WALL_ID), PLAYER_ID, observer, target));
    // A miss counts as not seen.
    assert!(!can_see(None, PLAYER_ID, observer, target));
}

#[test]
fn sight_ends_at_the_spot_distance() {
    let observer = WorldVec::new(0, 0);
    let near = WorldVec::new(SPOT_DIST - 1_000, 0);
    let far = WorldVec::new(SPOT_DIST, 0);
    assert!(can_see(Some(PLAYER_ID), PLAYER_ID, observer, near));
    assert!(!can_see(Some(PLAYER_ID), PLAYER_ID, observer, far));
}
