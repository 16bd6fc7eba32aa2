//! Perception: whether an agent sees the player.  The raycast itself is a
//! capability of the physics collaborator; its answer (the first entity hit
//! along the observer-to-target ray, if any) is handed in, and sight succeeds
//! exactly when that first hit is the target itself and the target is within
//! the spot distance.

use vstd::prelude::*;

verus! {

use crate::geom::WorldVec;

/// Distance (milli-pixels) beyond which the player cannot be spotted.
pub const SPOT_DIST: i64 = 200_000;

/// Sight succeeds exactly when the ray's first hit is the target entity and
/// the squared straight-line distance is under the spot threshold.  A hit on
/// an intervening obstacle, or a miss, both count as "not seen".
pub open spec fn spec_can_see(hit: Option<u64>, target_id: u64, dist2: int) -> bool {
    hit == Some(target_id) && dist2 < SPOT_DIST * SPOT_DIST
}

/// Decide sight from the raycast oracle's answer and the two positions.
/// Pure given its inputs; it keeps no state.
pub fn can_see(hit: Option<u64>, target_id: u64, observer_pos: WorldVec, target_pos: WorldVec) -> (r: bool)
    requires
        observer_pos.in_world_range(),
        target_pos.in_world_range(),
    ensures
        r == spec_can_see(hit, target_id, observer_pos.spec_dist2(target_pos)),
{
    let d2 = observer_pos.dist2(target_pos);
    match hit {
        Some(entity) => entity == target_id && d2 < SPOT_DIST * SPOT_DIST,
        None => false,
    }
}

} // verus!
