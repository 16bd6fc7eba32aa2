use npc_core::geom::WorldVec;
use npc_core::motion::scale_to_length;
use npc_core::motion::NpcVelAccum;

const MAX: i64 = 40_000;
const ACCEL: i64 = 350_000;
const DT: u32 = 100;

fn len2(v: WorldVec) -> i64 {
    v.x * v.x + v.y * v.y
}

#[test]
fn ramp_from_rest_reaches_max_speed_exactly() {
    // step = accel * dt / 1000 = 35_000 per tick; two ticks cover max.
    let mut acc = NpcVelAccum::zero();
    let dir = WorldVec::new(1_000, 0);
    acc.advance(dir, MAX, ACCEL, DT);
    assert_eq!(acc.v, WorldVec::new(35_000, 0));
    acc.advance(dir, MAX, ACCEL, DT);
    assert_eq!(acc.v, WorldVec::new(MAX, 0));
    // Further ticks stay clamped at max exactly.
    acc.advance(dir, MAX, ACCEL, DT);
    assert_eq!(acc.v, WorldVec::new(MAX, 0));
}

#[test]
fn speed_never_exceeds_max_on_any_heading() {
    for dir in [
        WorldVec::new(1_000, 1_000),
        WorldVec::new(-3_000, 4_000),
        WorldVec::new(7, -2),
        WorldVec::new(0, -9_999),
    ] {
        let mut acc = NpcVelAccum::zero();
        for _ in 0..12 {
            acc.advance(dir, MAX, ACCEL, DT);
            assert!(len2(acc.v) <= MAX * MAX, "speed exceeded max on {dir:?}");
        }
    }
}

#[test]
fn reversal_decelerates_through_zero() {
    let mut acc = NpcVelAccum::zero();
    let east = WorldVec::new(1_000, 0);
    let west = WorldVec::new(-1_000, 0);
    acc.advance(east, MAX, ACCEL, DT);
    acc.advance(east, MAX, ACCEL, DT);
    assert_eq!(acc.v, WorldVec::new(MAX, 0));
    acc.advance(west, MAX, ACCEL, DT);
    assert_eq!(acc.v, WorldVec::new(5_000, 0));
    acc.advance(west, MAX, ACCEL, DT);
    assert_eq!(acc.v, WorldVec::new(-30_000, 0));
}

#[test]
fn zero_direction_brakes_to_a_standstill() {
    let mut acc = NpcVelAccum::zero();
    let east = WorldVec::new(1_000, 0);
    acc.advance(east, MAX, ACCEL, DT);
    acc.advance(east, MAX, ACCEL, DT);
    let stop = WorldVec::new(0, 0);
    acc.advance(stop, MAX, ACCEL, DT);
    assert_eq!(acc.v, WorldVec::new(5_000, 0));
    acc.advance(stop, MAX, ACCEL, DT);
    assert_eq!(acc.v, WorldVec::new(0, 0));
}

#[test]
fn directions_are_rescaled_to_the_requested_length() {
    assert_eq!(scale_to_length(WorldVec::new(0, 0), MAX), WorldVec::new(0, 0));
    assert_eq!(scale_to_length(WorldVec::new(12_345, 0), MAX), WorldVec::new(MAX, 0));
    assert_eq!(scale_to_length(WorldVec::new(0, -500), MAX), WorldVec::new(0, -MAX));
    // A 3-4-5 direction rescales exactly.
    assert_eq!(
        scale_to_length(WorldVec::new(3_000, -4_000), 40_000),
        WorldVec::new(24_000, -32_000)
    );
}
